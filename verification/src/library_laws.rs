//! What the library shows: laws on where a file is placed, what a group and a
//! directory tell of their files, and what a search finds.

use vstd::prelude::*;
use vstd::string::*;

use crate::analysis::{directory_of, opt_source_key};
use crate::directories::{artist_among, directory_series, parent_names, shown_directory};
use crate::episodes::stem_series;
use crate::grouping::{
    child_placements, common_subtitle, distinct, distinct_keys_are_the_keys, entries,
    flat_groups, group_keys, group_of, groups_of, lemma_placed_in, placed_in, EntryModel,
    GroupEntry, Placement, PlacementModel,
};
use crate::groups::{
    found_groups, group_found, keys_of_groups, sort_keys, sorted_groups, with_file, with_key,
    GroupModel, MediaGroup,
};
use crate::library::{
    counted, directories_of, directory_found, directory_key, directory_of_files,
    directory_sort_key, empty_directory, file_found, found_directories, found_group_keys,
    holds_found_file, is_placed_in, is_shown, keys_of_directories, of_kind, search_of,
    shown_directories, shown_groups, sorted_directories, with_file_in, DirectoryModel,
    MediaDirectory,
};
use crate::media::ResourceVariant;
use crate::order::{place, sorted_set, stable_sorted};
use crate::paths::{path_below, path_file_name, path_parent, stem};
use crate::rules::{
    chosen_family, detected_artist, detected_series, merged_name, placement_of, rules_in,
    series_or_unknown, stored, usable_rule, LibraryRules,
};
use crate::text::{has_text, is_blank, occurs_at, opt_text, swapped, texts, trimmed, CharClass};
use crate::titles::{
    artist_source_label, is_generated, is_title, is_worded_title, series_label, series_name,
    source_key, title_key,
};
use crate::unicode::lowercase;

verus! {

// ---------------------------------------------------------------------------
// Names
// ---------------------------------------------------------------------------

/// A group is kept under its kind, a colon and the key of its name, and under
/// `unknown` where the name has no key.
pub proof fn groups_have_their_key(kind: Seq<char>, name: Seq<char>)
    ensures
        title_key(name).len() > 0 ==> source_key(kind, name) == kind + seq![':'] + title_key(name),
        title_key(name).len() == 0 ==> source_key(kind, name) == kind + seq![':'] + "unknown"@,
{
}

/// The source of an artist and of a series has its label: tag, directory and
/// file name, and for a series directory and file name.
pub proof fn sources_have_their_label(source: Seq<char>)
    ensures
        artist_source_label("tag"@) == "标签"@,
        artist_source_label("directory"@) == "目录"@,
        artist_source_label("filename"@) == "文件名"@,
        source != "tag"@ && source != "directory"@ && source != "filename"@
            ==> artist_source_label(source) == "未知来源"@,
        series_label("filename"@) == "文件名"@,
        series_label("directory"@) == "目录"@,
        source != "filename"@ && source != "directory"@ ==> series_label(source) == "未知来源"@,
{
    reveal_strlit("tag");
    reveal_strlit("directory");
    reveal_strlit("filename");
    assert("tag"@[0] != "directory"@[0]);
    assert("tag"@[0] != "filename"@[0]);
    assert("directory"@[0] != "filename"@[0]);
}

/// What is stored of a file and is not blank is kept as it is.
pub proof fn blank_values_are_not_kept(value: Option<String>)
    ensures
        value is None ==> stored(value) is None,
        value matches Some(text) ==> {
            &&& trimmed(text@, CharClass::Space).len() == 0 ==> stored(value) is None
            &&& trimmed(text@, CharClass::Space).len() > 0 ==> stored(value) == Some(text@)
        },
{
    if let Some(text) = value {
        crate::text::trimmed_text_is_empty(text@, CharClass::Space);
    }
}

/// The artist of a file is the stored one, else the one that its directories
/// tell, else unknown.
pub proof fn artists_are_told_by_priority(file: ResourceVariant, windows: bool)
    ensures
        ({
            let told = artist_among(parent_names(file.path@, file.root_path@, windows));
            &&& stored(file.music_artist) is Some ==> detected_artist(file, windows)
                == file.music_artist->0@
            &&& stored(file.music_artist) is None && told is Some ==> detected_artist(file, windows)
                == told->0
            &&& stored(file.music_artist) is None && told is None ==> detected_artist(file, windows)
                == "未知作者"@
        }),
{
}

/// The series of a file is the stored one, unless that is a date and the file
/// name tells another one; without a stored one it is the one of the file name,
/// else the title where that says words, else the one of the directories, else
/// any title that says something.
pub proof fn series_of_stored_files(file: ResourceVariant, windows: bool)
    ensures
        ({
            let told = stem_series(stem(file.file_name@, windows));
            let above = directory_series(file.path@, file.root_path@, windows);
            let series = detected_series(file, windows);
            let title = file.title_guess@;
            &&& stored(file.series_title) is Some ==> {
                let kept = series_name(file.series_title->0@);
                &&& told is None ==> series == Some(kept)
                &&& !is_generated(kept) ==> series == Some(kept)
                &&& told is Some && title_key(kept) == title_key(told->0) ==> series == Some(kept)
                &&& told is Some && is_blank(told->0) ==> series == Some(kept)
                &&& told is Some && is_generated(kept) && !is_blank(told->0) && title_key(kept)
                    != title_key(told->0) ==> series == told
            }
            &&& stored(file.series_title) is None ==> {
                &&& told is Some ==> series == told
                &&& told is None && is_worded_title(title) ==> series == Some(series_name(title))
                &&& told is None && !is_worded_title(title) && above is Some ==> series == above
                &&& told is None && !is_worded_title(title) && above is None && is_title(title)
                    ==> series == Some(series_name(title))
                &&& told is None && !is_worded_title(title) && above is None && !is_title(title)
                    ==> series is None
            }
            &&& series is Some ==> series_or_unknown(file, windows) == series->0
            &&& series is None ==> series_or_unknown(file, windows) == "未识别系列"@
        }),
{
}

// ---------------------------------------------------------------------------
// Rules
// ---------------------------------------------------------------------------

/// A rule is in force if it gives a name that is not blank; then this name
/// takes the place of the one that was detected.
pub proof fn rules_rename_groups(
    rules: Map<Seq<char>, Seq<char>>,
    key: Seq<char>,
    detected: Seq<char>,
)
    ensures
        rules.contains_key(key) && trimmed(rules[key], CharClass::Space).len() > 0 ==> {
            &&& usable_rule(rules, key) == Some(rules[key])
            &&& merged_name(rules, key, detected) == rules[key]
        },
        !rules.contains_key(key) || trimmed(rules[key], CharClass::Space).len() == 0 ==> {
            &&& usable_rule(rules, key) is None
            &&& merged_name(rules, key, detected) == detected
        },
{
    crate::text::trimmed_text_is_empty(rules[key], CharClass::Space);
}

/// The rules of a list of rows are those of its rows, the last one where a key
/// came twice.
pub proof fn the_last_rule_of_a_key_counts(rows: Seq<(String, String)>, i: int)
    requires
        0 <= i < rows.len(),
        forall|j: int| i < j < rows.len() ==> (#[trigger] rows[j]).0@ != rows[i].0@,
    ensures
        rules_in(rows).contains_key(rows[i].0@),
        rules_in(rows)[rows[i].0@] == rows[i].1@,
    decreases rows.len(),
{
    if i < rows.len() - 1 {
        let rest = rows.drop_last();
        assert(rest[i] == rows[i]);
        assert forall|j: int| i < j < rest.len() implies (#[trigger] rest[j]).0@ != rest[i].0@ by {
            assert(rest[j] == rows[j]);
        }
        the_last_rule_of_a_key_counts(rest, i);
        assert(rows[rows.len() - 1].0@ != rows[i].0@);
    }
}

/// There is no rule for a key that no row has.
pub proof fn other_keys_have_no_rule(rows: Seq<(String, String)>, key: Seq<char>)
    requires
        forall|j: int| 0 <= j < rows.len() ==> (#[trigger] rows[j]).0@ != key,
    ensures
        !rules_in(rows).contains_key(key),
    decreases rows.len(),
{
    if rows.len() > 0 {
        let rest = rows.drop_last();
        assert forall|j: int| 0 <= j < rest.len() implies (#[trigger] rest[j]).0@ != key by {
            assert(rest[j] == rows[j]);
        }
        other_keys_have_no_rule(rest, key);
        assert(rows[rows.len() - 1].0@ != key);
    }
}

// ---------------------------------------------------------------------------
// Places
// ---------------------------------------------------------------------------

/// Music is placed in the group of its artist: under the key of the name that
/// the rules for artists give it, with the key of the artist as its source and
/// as its resources, the label of where the artist is from, and its size.
pub proof fn music_is_placed_under_its_artist(
    file: ResourceVariant,
    rules: LibraryRules,
    windows: bool,
)
    requires
        file.media_kind@ == "music"@,
    ensures
        ({
            let placed = placement_of(file, rules, windows);
            let artist = detected_artist(file, windows);
            let own = source_key("music_artist"@, artist);
            let name = merged_name(rules.music_artist@, own, artist);
            &&& placed.child is None
            &&& placed.group.name == name
            &&& placed.group.key == source_key("music_artist"@, name)
            &&& placed.group.source_key == own
            &&& placed.group.resource_key == own
            &&& placed.group.family_name is None
            &&& placed.group.file_size == file.file_size
            &&& file.music_artist_source is None ==> placed.group.subtitle is None
            &&& file.music_artist_source matches Some(source) ==> placed.group.subtitle == Some(
                artist_source_label(source@),
            )
        }),
{
}

/// A video is placed in the group of its series: under the key of the name that
/// the rules for series give it, with the key of the series as its source and
/// as its resources, the label of where the series is from, and its size. Where
/// the series has a family, this group is a part of the group of the family,
/// which has its name from the same rules and the resources of its series.
pub proof fn videos_are_placed_under_their_series(
    file: ResourceVariant,
    rules: LibraryRules,
    windows: bool,
)
    requires
        file.media_kind@ != "music"@,
    ensures
        ({
            let placed = placement_of(file, rules, windows);
            let series = series_or_unknown(file, windows);
            let own = source_key("video_series"@, series);
            let name = merged_name(rules.video_series@, own, series);
            let family = chosen_family(
                rules.video_family@,
                series,
                crate::directories::series_family(file.path@, file.root_path@, series, windows),
            );
            let entry = if family is Some {
                placed.child->0
            } else {
                placed.group
            };
            &&& placed.child is Some <==> family is Some
            &&& entry.name == name
            &&& entry.key == source_key("video_series"@, name)
            &&& entry.source_key == own
            &&& entry.resource_key == own
            &&& entry.file_size == file.file_size
            &&& file.series_source is None ==> entry.subtitle is None
            &&& file.series_source matches Some(source) ==> entry.subtitle == Some(
                series_label(source@),
            )
            &&& family is None ==> entry.family_name is None
            &&& family matches Some(found) ==> {
                let above = source_key("video_series"@, found);
                let title = merged_name(rules.video_series@, above, found);
                &&& entry.family_name == Some(title)
                &&& placed.group.name == title
                &&& placed.group.key == source_key("video_series"@, title)
                &&& placed.group.source_key == above
                &&& placed.group.resource_key == own
                &&& placed.group.file_size == file.file_size
                &&& placed.group.family_name is None
                &&& placed.group.subtitle == Some("作品族"@)
            }
        }),
{
}

/// A rule for the family of a series takes the place of the family that its
/// directories tell.
pub proof fn rules_choose_the_family(
    rules: Map<Seq<char>, Seq<char>>,
    series: Seq<char>,
    told: Option<Seq<char>>,
)
    ensures
        ({
            let key = source_key("video_series"@, series);
            &&& rules.contains_key(key) && !is_blank(rules[key]) ==> chosen_family(
                rules,
                series,
                told,
            ) == Some(rules[key])
            &&& !rules.contains_key(key) || is_blank(rules[key]) ==> chosen_family(
                rules,
                series,
                told,
            ) == told
        }),
{
}

// ---------------------------------------------------------------------------
// Groups
// ---------------------------------------------------------------------------

/// A group tells how many files it has, has its key and its names from them,
/// and lists the keys of their sources and of their resources, each once.
pub proof fn groups_tell_of_their_files(
    files: Seq<EntryModel>,
    children: Seq<GroupModel>,
    key: Seq<char>,
)
    requires
        files.len() > 0,
    ensures
        ({
            let group = group_of(files, children);
            &&& group.key == files[0].key
            &&& group.name == files[0].name
            &&& group.family_name == files[0].family_name
            &&& group.file_count == files.len()
            &&& group.source_keys.no_duplicates()
            &&& group.resource_keys.no_duplicates()
            &&& group.source_keys.contains(key) <==> exists|i: int|
                0 <= i < files.len() && (#[trigger] files[i]).source_key == key
            &&& group.resource_keys.contains(key) <==> exists|i: int|
                0 <= i < files.len() && (#[trigger] files[i]).resource_key == key
            &&& group.child_groups == sorted_groups(children)
        }),
{
    let sources = files.map_values(|e: EntryModel| e.source_key);
    let resources = files.map_values(|e: EntryModel| e.resource_key);
    crate::order::sorted_set_is_the_set(sources);
    crate::order::sorted_set_is_the_set(resources);
    if exists|i: int| 0 <= i < files.len() && (#[trigger] files[i]).source_key == key {
        let i = choose|i: int| 0 <= i < files.len() && (#[trigger] files[i]).source_key == key;
        assert(sources[i] == key);
    }
    if exists|i: int| 0 <= i < files.len() && (#[trigger] files[i]).resource_key == key {
        let i = choose|i: int| 0 <= i < files.len() && (#[trigger] files[i]).resource_key == key;
        assert(resources[i] == key);
    }
    if sources.contains(key) {
        let i = choose|i: int| 0 <= i < sources.len() && sources[i] == key;
        assert(files[i].source_key == key);
    }
    if resources.contains(key) {
        let i = choose|i: int| 0 <= i < resources.len() && resources[i] == key;
        assert(files[i].resource_key == key);
    }
    assert(sorted_set(sources).contains(key) <==> sources.contains(key));
    assert(sorted_set(resources).contains(key) <==> resources.contains(key));
}

proof fn lemma_children(placements: Seq<PlacementModel>, key: Seq<char>)
    ensures
        group_keys(child_placements(placements)).contains(key) <==> exists|i: int|
            0 <= i < placements.len() && (#[trigger] placements[i]).child is Some
                && placements[i].child->0.key == key,
    decreases placements.len(),
{
    let keys = group_keys(child_placements(placements));
    if placements.len() > 0 {
        let rest = placements.drop_last();
        let last = placements[placements.len() - 1];
        let before = group_keys(child_placements(rest));
        lemma_children(rest, key);
        if last.child is Some {
            assert(keys =~= before.push(last.child->0.key));
            assert(keys[before.len() as int] == last.child->0.key);
        } else {
            assert(keys =~= before);
        }
        if before.contains(key) {
            let at = choose|at: int| 0 <= at < before.len() && before[at] == key;
            assert(keys[at] == key);
            let i = choose|i: int|
                0 <= i < rest.len() && (#[trigger] rest[i]).child is Some && rest[i].child->0.key
                    == key;
            assert(placements[i] == rest[i]);
        } else {
            assert forall|i: int|
                0 <= i < rest.len() && (#[trigger] placements[i]).child
                    is Some implies placements[i].child->0.key != key by {
                assert(rest[i] == placements[i]);
            }
            if keys.contains(key) {
                let at = choose|at: int| 0 <= at < keys.len() && keys[at] == key;
                if at < before.len() {
                    assert(before[at] == key);
                }
                assert(last.child is Some);
            }
        }
    }
}

/// A group counts the files that are placed in it, lists the keys of their
/// sources and resources, and holds a group for each of the keys of its parts
/// and no others.
pub proof fn groups_hold_their_files(placements: Seq<PlacementModel>, i: int, key: Seq<char>)
    requires
        0 <= i < groups_of(placements).len(),
    ensures
        ({
            let group = groups_of(placements)[i];
            &&& group.file_count == placements.filter(
                |p: PlacementModel| p.group.key == group.key,
            ).len()
            &&& forall|j: int|
                0 <= j < placements.len() && (#[trigger] placements[j]).group.key == group.key
                    ==> group.source_keys.contains(placements[j].group.source_key)
                    && group.resource_keys.contains(placements[j].group.resource_key)
            &&& keys_of_groups(group.child_groups).contains(key) <==> exists|j: int|
                0 <= j < placements.len() && (#[trigger] placements[j]).group.key == group.key
                    && placements[j].child is Some && placements[j].child->0.key == key
        }),
{
    let keys = distinct(group_keys(placements));
    let group = groups_of(placements)[i];
    distinct_keys_are_the_keys(group_keys(placements));
    assert(keys.contains(keys[i]));
    lemma_placed_in(placements, keys[i]);
    let keep = |p: PlacementModel| p.group.key == keys[i];
    let placed = placements.filter(keep);
    assert(placed == placed_in(placements, keys[i]));
    crate::library::lemma_filter(placements, keep);
    assert(keep(placed[0]));
    assert(entries(placed)[0] == placed[0].group);
    assert(group.key == keys[i]);
    let files = entries(placed);
    assert forall|j: int|
        0 <= j < placements.len() && (#[trigger] placements[j]).group.key
            == group.key implies group.source_keys.contains(placements[j].group.source_key)
        && group.resource_keys.contains(placements[j].group.resource_key) by {
        assert(keep(placements[j]));
        assert(placed.contains(placements[j]));
        let k = choose|k: int| 0 <= k < placed.len() && placed[k] == placements[j];
        assert(files[k] == placements[j].group);
        groups_tell_of_their_files(files, Seq::empty(), placements[j].group.source_key);
        groups_tell_of_their_files(files, Seq::empty(), placements[j].group.resource_key);
    }
    let children = child_placements(placed);
    let parts = flat_groups(children);
    lemma_children(placed, key);
    distinct_keys_are_the_keys(group_keys(children));
    assert(keys_of_groups(parts) =~= distinct(group_keys(children))) by {
        let inner = distinct(group_keys(children));
        assert forall|k: int| 0 <= k < inner.len() implies (#[trigger] parts[k]).key == inner[k] by {
            assert(inner.contains(inner[k]));
            lemma_placed_in(children, inner[k]);
            let own = placed_in(children, inner[k]);
            assert(own[0].group.key == inner[k]);
            assert(entries(own)[0] == own[0].group);
        }
    }
    crate::groups::sorting_groups_orders_every_level(parts);
    vstd::seq_lib::to_multiset_contains(keys_of_groups(parts), key);
    vstd::seq_lib::to_multiset_contains(keys_of_groups(sorted_groups(parts)), key);
    if exists|k: int|
        0 <= k < placed.len() && (#[trigger] placed[k]).child is Some && placed[k].child->0.key
            == key {
        let k = choose|k: int|
            0 <= k < placed.len() && (#[trigger] placed[k]).child is Some && placed[k].child->0.key
                == key;
        assert(keep(placed[k]));
        assert(placements.contains(placed[k]));
        let j = choose|j: int| 0 <= j < placements.len() && placements[j] == placed[k];
        assert(placements[j].group.key == group.key);
    }
    assert forall|j: int|
        0 <= j < placements.len() && (#[trigger] placements[j]).group.key == group.key
            && placements[j].child is Some && placements[j].child->0.key
            == key implies group_keys(children).contains(key) by {
        assert(keep(placements[j]));
        assert(placed.contains(placements[j]));
        let k = choose|k: int| 0 <= k < placed.len() && placed[k] == placements[j];
        assert(placed[k].child is Some);
    }
}

/// A group has the subtitle of its files if they share one, and else none.
pub proof fn shared_subtitles_are_shown(files: Seq<EntryModel>, i: int, j: int)
    requires
        0 <= i < files.len(),
        0 <= j < files.len(),
    ensures
        files[i].subtitle != files[j].subtitle ==> common_subtitle(files) is None,
        common_subtitle(files) matches Some(subtitle) ==> files[i].subtitle == Some(subtitle),
        (forall|k: int| 0 <= k < files.len() ==> (#[trigger] files[k]).subtitle == files[i].subtitle)
            ==> common_subtitle(files) == files[i].subtitle,
{
    if forall|k: int| 0 <= k < files.len() ==> (#[trigger] files[k]).subtitle == files[0].subtitle {
        assert(files[i].subtitle == files[0].subtitle);
        assert(files[j].subtitle == files[0].subtitle);
    }
    if forall|k: int| 0 <= k < files.len() ==> (#[trigger] files[k]).subtitle == files[i].subtitle {
        assert(files[0].subtitle == files[i].subtitle);
    }
}

/// A file that comes to a group is counted, its size and its keys come to those
/// of the group, and the subtitle stays if it is the same or the file is the
/// first; nothing else of the group changes.
pub proof fn files_come_to_their_group(
    group: GroupModel,
    size: i64,
    source: Seq<char>,
    resource: Seq<char>,
    subtitle: Option<Seq<char>>,
    key: Seq<char>,
)
    ensures
        ({
            let after = with_file(group, size, source, resource, subtitle);
            &&& after.key == group.key
            &&& after.name == group.name
            &&& after.family_name == group.family_name
            &&& after.child_groups == group.child_groups
            &&& after.file_count == group.file_count + 1
            &&& 0 <= group.total_size + size <= i64::MAX ==> after.total_size == group.total_size
                + size
            &&& group.file_count == 0 || group.subtitle == subtitle ==> after.subtitle
                == group.subtitle
            &&& group.file_count > 0 && group.subtitle != subtitle ==> after.subtitle is None
            &&& after.source_keys.contains(key) <==> group.source_keys.contains(key) || key == source
            &&& after.resource_keys.contains(key) <==> group.resource_keys.contains(key) || key
                == resource
        }),
{
    lemma_with_key(group.source_keys, source, key);
    lemma_with_key(group.resource_keys, resource, key);
}

proof fn lemma_with_key(keys: Seq<Seq<char>>, new: Seq<char>, key: Seq<char>)
    ensures
        with_key(keys, new).contains(key) <==> keys.contains(key) || key == new,
{
    let after = with_key(keys, new);
    if !keys.contains(new) {
        let p = place(keys, new);
        crate::order::lemma_place_splits(keys, new);
        assert(after[p] == new);
        if keys.contains(key) {
            let i = choose|i: int| 0 <= i < keys.len() && keys[i] == key;
            assert(after[if i < p {
                i
            } else {
                i + 1
            }] == key);
        }
        if after.contains(key) && key != new {
            let j = choose|j: int| 0 <= j < after.len() && after[j] == key;
            assert(keys[if j < p {
                j
            } else {
                j - 1
            }] == key);
        }
    }
}

/// Groups are sorted by their names in lower case.
pub proof fn groups_are_sorted_by_name(groups: Seq<GroupModel>, i: int)
    requires
        0 <= i < groups.len(),
    ensures
        sort_keys(groups)[i] == lowercase(groups[i].name),
        crate::groups::in_order(sorted_groups(groups)),
{
    crate::groups::sorting_groups_orders_every_level(groups);
}

/// What can be read of a group, of a directory and of a placed file is what
/// they hold, field by field.
pub proof fn shown_values_are_what_they_hold(
    group: MediaGroup,
    directory: MediaDirectory,
    entry: GroupEntry,
    placement: Placement,
)
    ensures
        group.model().key == group.key@,
        group.model().name == group.name@,
        group.model().subtitle == opt_text(group.subtitle),
        group.model().family_name == opt_text(group.family_name),
        group.model().file_count == group.file_count,
        group.model().total_size == group.total_size,
        group.model().source_keys == texts(group.source_keys@),
        group.model().resource_keys == texts(group.resource_keys@),
        group.model().child_groups.len() == group.child_groups@.len(),
        directory.model().key == directory.key@,
        directory.model().path == directory.path@,
        directory.model().name == directory.name@,
        directory.model().relative_path == directory.relative_path@,
        directory.model().parent_name == opt_text(directory.parent_name),
        directory.model().media_kind == directory.media_kind@,
        directory.model().file_count == directory.file_count,
        directory.model().total_size == directory.total_size,
        entry.model().key == entry.key@,
        entry.model().name == entry.name@,
        entry.model().subtitle == opt_text(entry.subtitle),
        entry.model().family_name == opt_text(entry.family_name),
        entry.model().file_size == entry.file_size,
        entry.model().source_key == entry.source_key@,
        entry.model().resource_key == entry.resource_key@,
        placement.model().group == placement.group.model(),
        placement.child is None <==> placement.model().child is None,
        placement.child matches Some(child) ==> placement.model().child == Some(child.model()),
{
    crate::groups::lemma_group_models(group.child_groups@);
}

// ---------------------------------------------------------------------------
// Directories
// ---------------------------------------------------------------------------

/// The directory of a file is what its path lies in, else its root. A name has
/// the key of its group, and where there is no name there is no key.
pub proof fn files_lie_in_their_directory(
    path: Seq<char>,
    root: Seq<char>,
    kind: Seq<char>,
    name: Seq<char>,
    windows: bool,
)
    ensures
        path_parent(path, windows) is Some ==> directory_of(path, root, windows) == path_parent(
            path,
            windows,
        )->0,
        path_parent(path, windows) is None ==> directory_of(path, root, windows) == root,
        opt_source_key(kind, Some(name)) == Some(source_key(kind, name)),
        opt_source_key(kind, None) is None,
{
}

/// A directory is shown under the path below its root with slashes between its
/// parts, and where there is none under its last part; without a last part it
/// is the root directory.
pub proof fn directories_are_shown_below_their_root(below: Option<Seq<char>>, name: Option<Seq<char>>)
    ensures
        below is Some && !is_blank(swapped(below->0, '\\', '/')) ==> shown_directory(below, name)
            == swapped(below->0, '\\', '/'),
        (below is None || is_blank(swapped(below->0, '\\', '/'))) && name is Some
            ==> shown_directory(below, name) == name->0,
        (below is None || is_blank(swapped(below->0, '\\', '/'))) && name is None
            ==> shown_directory(below, name) == "根目录"@,
{
}

/// The directory of files tells where they lie, of which kind they are, how
/// many there are and how large they are together.
pub proof fn directories_tell_of_their_files(files: Seq<ResourceVariant>, windows: bool)
    requires
        files.len() > 0,
    ensures
        ({
            let shown = directory_of_files(files, windows);
            let path = directory_of(files[0].path@, files[0].root_path@, windows);
            let name = path_file_name(path, windows);
            &&& shown.key == path
            &&& shown.path == path
            &&& name is Some ==> shown.name == name->0
            &&& name is None ==> shown.name == "根目录"@
            &&& shown.relative_path == shown_directory(
                path_below(path, files[0].root_path@, windows),
                name,
            )
            &&& path_parent(path, windows) is None ==> shown.parent_name is None
            &&& path_parent(path, windows) matches Some(parent) ==> shown.parent_name
                == path_file_name(parent, windows)
            &&& shown.media_kind == files[0].media_kind@
            &&& shown.file_count == files.len()
            &&& directory_sort_key(shown) == lowercase(shown.relative_path)
        }),
{
}

/// A file that comes to a directory is counted and its size comes to the size
/// of the directory; nothing else of the directory changes.
pub proof fn files_are_counted_in_their_directory(directory: DirectoryModel, file: ResourceVariant)
    ensures
        counted(directory, file).file_count == directory.file_count + 1,
        0 <= directory.total_size + file.file_size <= i64::MAX ==> counted(
            directory,
            file,
        ).total_size == directory.total_size + file.file_size,
        counted(directory, file).key == directory.key,
        counted(directory, file).path == directory.path,
        counted(directory, file).name == directory.name,
        counted(directory, file).relative_path == directory.relative_path,
        counted(directory, file).parent_name == directory.parent_name,
        counted(directory, file).media_kind == directory.media_kind,
{
}

/// A file comes to the directory that it lies in; the first file of a directory
/// brings the directory, behind the others. The other directories stay as they
/// are.
pub proof fn files_come_to_their_directory(
    directories: Seq<DirectoryModel>,
    file: ResourceVariant,
    windows: bool,
    i: int,
)
    requires
        0 <= i < directories.len(),
        keys_of_directories(directories).no_duplicates(),
    ensures
        ({
            let after = with_file_in(directories, file, windows);
            let key = directory_of(file.path@, file.root_path@, windows);
            let is_there = exists|j: int|
                0 <= j < directories.len() && (#[trigger] directories[j]).key == key;
            &&& is_there ==> after.len() == directories.len()
            &&& !is_there ==> after.len() == directories.len() + 1 && after.last() == counted(
                empty_directory(file, windows),
                file,
            )
            &&& directories[i].key != key ==> after[i] == directories[i]
            &&& directories[i].key == key ==> after[i] == counted(directories[i], file)
            &&& empty_directory(file, windows).key == key
            &&& empty_directory(file, windows).file_count == 0
            &&& empty_directory(file, windows).total_size == 0
        }),
{
    let keys = keys_of_directories(directories);
    let key = directory_key(file, windows);
    if exists|j: int| 0 <= j < directories.len() && (#[trigger] directories[j]).key == key {
        let j = choose|j: int| 0 <= j < directories.len() && (#[trigger] directories[j]).key == key;
        assert(keys[j] == key);
    }
    if keys.contains(key) {
        let at = keys.index_of(key);
        assert(keys[at] == key);
        assert(directories[at].key == key);
        if directories[i].key == key {
            assert(keys[i] == key);
        }
    }
}

// ---------------------------------------------------------------------------
// Searches
// ---------------------------------------------------------------------------

/// A search is for the text in lower case without the white space around it;
/// there is none where nothing is left.
pub proof fn searches_are_for_lower_case(query: Seq<char>)
    ensures
        trimmed(query, CharClass::Space).len() == 0 ==> search_of(Some(query)) is None,
        trimmed(query, CharClass::Space).len() > 0 ==> search_of(Some(query)) == Some(
            lowercase(trimmed(query, CharClass::Space)),
        ),
        search_of(None) is None,
{
}

/// A file is found by its name and by its path, in lower case.
pub proof fn files_are_found_by_name_and_path(file: ResourceVariant, search: Seq<char>)
    ensures
        file_found(file, search) <==> has_text(lowercase(file.file_name@), search) || has_text(
            lowercase(file.path@),
            search,
        ),
{
}

/// A directory is found by its name, by its path and by its path below its
/// root, in lower case.
pub proof fn directories_are_found_by_name_and_path(directory: DirectoryModel, search: Seq<char>)
    ensures
        directory_found(directory, search) <==> has_text(lowercase(directory.name), search)
            || has_text(lowercase(directory.relative_path), search) || has_text(
            lowercase(directory.path),
            search,
        ),
{
}

/// A text holds another if it is a part of it.
pub proof fn texts_hold_their_parts(before: Seq<char>, part: Seq<char>, behind: Seq<char>)
    ensures
        has_text(before + part + behind, part),
{
    let all = before + part + behind;
    let n = before.len() as int;
    assert(all.subrange(n, n + part.len()) =~= part);
    assert(occurs_at(all, part, n));
}

/// A text that holds another consists of it and of what stands before and
/// behind it.
pub proof fn held_texts_are_parts(s: Seq<char>, part: Seq<char>) -> (r: (Seq<char>, Seq<char>))
    requires
        has_text(s, part),
    ensures
        s == r.0 + part + r.1,
{
    let i = choose|i: int| occurs_at(s, part, i);
    assert(s =~= s.take(i) + part + s.skip(i + part.len())) by {
        assert forall|j: int| i <= j < i + part.len() implies s[j] == part[j - i] by {
            assert(s.subrange(i, i + part.len())[j - i] == s[j]);
        }
    }
    (s.take(i), s.skip(i + part.len()))
}

/// A group without parts is found by its name, its subtitle, the keys of its
/// sources, or because one of its files is found; one with parts that are found
/// is found with them.
pub proof fn groups_are_found_by_what_they_show(
    group: GroupModel,
    search: Seq<char>,
    matched: Set<Seq<char>>,
)
    ensures
        has_text(lowercase(group.name), search) ==> group_found(group, search, matched),
        group.subtitle is Some && has_text(lowercase(group.subtitle->0), search) ==> group_found(
            group,
            search,
            matched,
        ),
        forall|i: int|
            0 <= i < group.source_keys.len() && has_text(
                lowercase(#[trigger] group.source_keys[i]),
                search,
            ) ==> group_found(group, search, matched),
        matched.contains(group.key) ==> group_found(group, search, matched),
        group.child_groups.len() > 0 ==> group_found(group, search, matched),
        group_found(group, search, matched) && group.child_groups.len() == 0 && !has_text(
            lowercase(group.name),
            search,
        ) && !matched.contains(group.key) && (group.subtitle is None || !has_text(
            lowercase(group.subtitle->0),
            search,
        )) ==> exists|i: int|
            0 <= i < group.source_keys.len() && has_text(
                lowercase(#[trigger] group.source_keys[i]),
                search,
            ),
{
}

/// A group, and the group that it is a part of, is found by each of the shown
/// files that are placed in it.
pub proof fn found_files_find_their_groups(
    files: Seq<ResourceVariant>,
    rules: LibraryRules,
    search: Seq<char>,
    windows: bool,
    i: int,
)
    requires
        0 <= i < files.len(),
        files[i].media_kind@ == "music"@ || files[i].media_kind@ == "video"@,
        file_found(files[i], search),
    ensures
        ({
            let found = found_group_keys(files, rules, search, windows);
            let placed = placement_of(files[i], rules, windows);
            &&& found.contains(placed.group.key)
            &&& placed.child matches Some(child) ==> found.contains(child.key)
        }),
{
    assert(is_shown(files[i]));
    let placed = placement_of(files[i], rules, windows);
    assert(is_placed_in(placed, placed.group.key));
    if let Some(child) = placed.child {
        assert(is_placed_in(placed, child.key));
    }
}

/// A group that no shown file finds is not found by its files.
pub proof fn other_groups_are_not_found_by_files(
    files: Seq<ResourceVariant>,
    rules: LibraryRules,
    search: Seq<char>,
    windows: bool,
    key: Seq<char>,
)
    requires
        forall|i: int|
            0 <= i < files.len() && file_found(#[trigger] files[i], search) && (
            files[i].media_kind@ == "music"@ || files[i].media_kind@ == "video"@) ==> {
                let placed = placement_of(files[i], rules, windows);
                placed.group.key != key && (placed.child matches Some(child) ==> child.key != key)
            },
    ensures
        !found_group_keys(files, rules, search, windows).contains(key),
{
}

/// The files of a kind are those files that are of this kind, in their order.
pub proof fn shown_files_are_of_their_kind(
    files: Seq<ResourceVariant>,
    kind: Seq<char>,
    i: int,
    j: int,
    last: ResourceVariant,
)
    ensures
        0 <= i < of_kind(files, kind).len() ==> of_kind(files, kind)[i].media_kind@ == kind
            && files.contains(of_kind(files, kind)[i]),
        0 <= j < files.len() && files[j].media_kind@ == kind ==> of_kind(files, kind).contains(
            files[j],
        ),
        last.media_kind@ == kind ==> of_kind(files.push(last), kind) == of_kind(files, kind).push(
            last,
        ),
{
    reveal(Seq::filter);
    assert(files.push(last).drop_last() =~= files);
    if 0 <= j < files.len() && files[j].media_kind@ == kind {
        assert(crate::library::kind_is(kind)(files[j]));
    }
    crate::library::lemma_filter(files, crate::library::kind_is(kind));
}

/// A directory of the kind is shown if it is found by the search or one of its
/// files is, and no other. Without a search all are.
pub proof fn searches_find_directories(
    files: Seq<ResourceVariant>,
    kind: Seq<char>,
    search: Seq<char>,
    windows: bool,
    directory: DirectoryModel,
)
    ensures
        ({
            let own = of_kind(files, kind);
            let all = directories_of(own, windows);
            &&& shown_directories(files, kind, Some(search), windows).contains(directory)
                <==> all.contains(directory) && (directory_found(directory, search) || exists|i: int|
                0 <= i < own.len() && file_found(#[trigger] own[i], search) && directory_key(
                    own[i],
                    windows,
                ) == directory.key)
            &&& shown_directories(files, kind, None, windows).contains(directory) <==> all.contains(
                directory,
            )
        }),
{
    let own = of_kind(files, kind);
    let all = directories_of(own, windows);
    let keep = |d: DirectoryModel|
        directory_found(d, search) || holds_found_file(own, d.key, search, windows);
    let found = found_directories(own, Some(search), windows);
    assert(found == all.filter(keep));
    crate::library::lemma_filter(all, keep);
    if found.contains(directory) {
        let i = choose|i: int| 0 <= i < found.len() && found[i] == directory;
        assert(keep(all.filter(keep)[i]));
    }
    if all.contains(directory) && keep(directory) {
        let i = choose|i: int| 0 <= i < all.len() && all[i] == directory;
        assert(keep(all[i]));
    }
    lemma_sorting_holds(found, directory);
    lemma_sorting_holds(all, directory);
}

proof fn lemma_sorting_holds(directories: Seq<DirectoryModel>, directory: DirectoryModel)
    ensures
        sorted_directories(directories).contains(directory) <==> directories.contains(directory),
{
    let key = |d: DirectoryModel| directory_sort_key(d);
    crate::order::sorting_orders_and_keeps(directories, key);
    assert(sorted_directories(directories) == stable_sorted(directories, key));
    vstd::seq_lib::to_multiset_contains(directories, directory);
    vstd::seq_lib::to_multiset_contains(stable_sorted(directories, key), directory);
}

/// A group with those of its parts that are found stays in a search if it is
/// found, and what stays are such groups.
pub proof fn searches_find_groups(
    groups: Seq<GroupModel>,
    search: Seq<char>,
    matched: Set<Seq<char>>,
    i: int,
    j: int,
)
    requires
        0 <= i < groups.len(),
    ensures
        ({
            let found = found_groups(groups, search, matched);
            let left = GroupModel {
                child_groups: found_groups(groups[i].child_groups, search, matched),
                ..groups[i]
            };
            &&& group_found(left, search, matched) ==> found.contains(left)
            &&& 0 <= j < found.len() ==> group_found(found[j], search, matched) && exists|k: int|
                0 <= k < groups.len() && found[j] == (GroupModel {
                    child_groups: found_groups((#[trigger] groups[k]).child_groups, search, matched),
                    ..groups[k]
                })
        }),
    decreases groups.len(),
{
    let rest = groups.drop_last();
    let last = groups[groups.len() - 1];
    let before = found_groups(rest, search, matched);
    let found = found_groups(groups, search, matched);
    let kept = GroupModel {
        child_groups: found_groups(last.child_groups, search, matched),
        ..last
    };
    let stays = group_found(kept, search, matched);
    assert(found == if stays {
        before.push(kept)
    } else {
        before
    });
    if stays {
        assert(found[before.len() as int] == kept);
    }
    if rest.len() == 0 {
        assert(before.len() == 0);
        assert(groups[i] == last);
    } else {
        if i < rest.len() {
            searches_find_groups(rest, search, matched, i, j);
            assert(rest[i] == groups[i]);
            let left = GroupModel {
                child_groups: found_groups(rest[i].child_groups, search, matched),
                ..rest[i]
            };
            if group_found(left, search, matched) {
                let at = choose|at: int| 0 <= at < before.len() && before[at] == left;
                assert(found[at] == left);
            }
        } else {
            searches_find_groups(rest, search, matched, 0, j);
        }
        if 0 <= j < before.len() {
            let k = choose|k: int|
                0 <= k < rest.len() && before[j] == (GroupModel {
                    child_groups: found_groups((#[trigger] rest[k]).child_groups, search, matched),
                    ..rest[k]
                });
            assert(groups[k] == rest[k]);
            assert(found[j] == before[j]);
        }
    }
}

/// The groups that are shown of a kind are those of its files, sorted; in a
/// search those of them that are found, by what they show or by their files.
pub proof fn searches_show_groups(
    files: Seq<ResourceVariant>,
    kind: Seq<char>,
    rules: LibraryRules,
    search: Seq<char>,
    windows: bool,
)
    ensures
        ({
            let groups = groups_of(
                of_kind(files, kind).map_values(|f: ResourceVariant| placement_of(f, rules, windows)),
            );
            &&& shown_groups(files, kind, rules, None, windows) == sorted_groups(groups)
            &&& shown_groups(files, kind, rules, Some(search), windows) == sorted_groups(
                found_groups(groups, search, found_group_keys(files, rules, search, windows)),
            )
        }),
{
}

} // verus!
