//! Names of stored files: the artist or series that a file belongs to, the
//! rules that put groups together, and the groups a file is placed in.

use vstd::hash_map::StringHashMap;
use vstd::prelude::*;

use crate::directories::{
    artist_among, directory_series, infer_artist_from_directory, infer_series_family,
    infer_series_from_directory, parent_names, series_family,
};
use crate::episodes::{infer_series_from_file_name, stem_series};
use crate::grouping::{EntryModel, GroupEntry, Placement, PlacementModel};
use crate::media::ResourceVariant;
use crate::paths::{stem, PathRules};
use crate::text::{blank, is_blank, opt_text, same_text};
use crate::titles::{
    artist_source_label, group_source_key, is_detected_title, is_generated,
    is_generated_directory_title, is_title, is_worded_title, music_artist_source_label,
    normalize_series_title, replaces_stored, says_words, series_label, series_name,
    series_source_label, should_replace_stored_series, source_key, UNKNOWN_ARTIST, UNKNOWN_SERIES,
};

verus! {

// ---------------------------------------------------------------------------
// Merge rules
// ---------------------------------------------------------------------------

/// Rules of one kind: the name that the group of a key goes by.
pub struct MergeRules {
    rules: StringHashMap<String>,
}

impl View for MergeRules {
    type V = Map<Seq<char>, Seq<char>>;

    closed spec fn view(&self) -> Map<Seq<char>, Seq<char>> {
        self.rules@.map_values(|name: String| name@)
    }
}

/// The rules that rows of keys and names state; of two rows with one key the
/// later holds.
pub open spec fn rules_in(rows: Seq<(String, String)>) -> Map<Seq<char>, Seq<char>>
    decreases rows.len(),
{
    if rows.len() == 0 {
        Map::empty()
    } else {
        rules_in(rows.drop_last()).insert(rows.last().0@, rows.last().1@)
    }
}

impl MergeRules {
    /// No rules.
    pub fn new() -> (r: Self)
        ensures
            r@ == Map::<Seq<char>, Seq<char>>::empty(),
    {
        let r = MergeRules { rules: StringHashMap::new() };
        proof {
            assert(r@ =~= Map::empty());
        }
        r
    }

    /// Adds a rule, or changes the one of this key.
    pub fn insert(&mut self, source_key: String, target_name: String)
        ensures
            final(self)@ == old(self)@.insert(source_key@, target_name@),
    {
        let ghost before = self@;
        let ghost key = source_key@;
        let ghost name = target_name@;
        self.rules.insert(source_key, target_name);
        proof {
            assert(self@ =~= before.insert(key, name));
        }
    }

    /// The rules that rows of keys and names state.
    pub fn from_rows(rows: Vec<(String, String)>) -> (r: Self)
        ensures
            r@ == rules_in(rows@),
    {
        let mut rules = MergeRules::new();
        for row in it: rows
            invariant
                it.seq() == rows@,
                rules@ == rules_in(rows@.take(it.index() as int)),
        {
            proof {
                let n = it.index() as int;
                assert(rows@.take(n + 1).drop_last() =~= rows@.take(n));
            }
            let (source_key, target_name) = row;
            rules.insert(source_key, target_name);
        }
        proof {
            assert(rows@.take(rows@.len() as int) =~= rows@);
        }
        rules
    }

    /// The name that a rule gives to the group of a key. A blank name is no
    /// rule.
    pub fn usable(&self, source_key: &str) -> (r: Option<String>)
        ensures
            opt_text(r) == usable_rule(self@, source_key@),
    {
        match self.rules.get(source_key) {
            Some(name) => {
                if blank(name.as_str()) {
                    None
                } else {
                    Some(name.clone())
                }
            },
            None => None,
        }
    }
}

/// The name that a rule gives to the group of a key. A blank name is no rule.
pub open spec fn usable_rule(rules: Map<Seq<char>, Seq<char>>, source_key: Seq<char>) -> Option<
    Seq<char>,
> {
    if rules.contains_key(source_key) && !is_blank(rules[source_key]) {
        Some(rules[source_key])
    } else {
        None
    }
}

/// The name of a group: that of its rule, else the one that was detected.
pub open spec fn merged_name(
    rules: Map<Seq<char>, Seq<char>>,
    source_key: Seq<char>,
    detected: Seq<char>,
) -> Seq<char> {
    match usable_rule(rules, source_key) {
        Some(name) => name,
        None => detected,
    }
}

/// The name of a group: that of its rule, else the one that was detected.
pub fn apply_merge_rule(source_key: &str, detected_name: String, rules: &MergeRules) -> (r: String)
    ensures
        r@ == merged_name(rules@, source_key@, detected_name@),
{
    match rules.usable(source_key) {
        Some(name) => name,
        None => detected_name,
    }
}

/// The rules of a library.
pub struct LibraryRules {
    pub music_artist: MergeRules,
    pub video_series: MergeRules,
    pub video_family: MergeRules,
}

// ---------------------------------------------------------------------------
// The artist or series of a stored file
// ---------------------------------------------------------------------------

/// A stored text that is not blank.
pub open spec fn stored(value: Option<String>) -> Option<Seq<char>> {
    match value {
        Some(text) => if is_blank(text@) {
            None
        } else {
            Some(text@)
        },
        None => None,
    }
}

/// A stored text that is not blank.
pub fn stored_text(value: &Option<String>) -> (r: Option<String>)
    ensures
        opt_text(r) == stored(*value),
{
    match value {
        Some(text) => {
            if blank(text.as_str()) {
                None
            } else {
                Some(text.clone())
            }
        },
        None => None,
    }
}

/// The artist of a stored file: the stored one, else that of its directories,
/// else the unknown artist.
pub open spec fn detected_artist(file: ResourceVariant, windows: bool) -> Seq<char> {
    match stored(file.music_artist) {
        Some(artist) => artist,
        None => match artist_among(parent_names(file.path@, file.root_path@, windows)) {
            Some(artist) => artist,
            None => UNKNOWN_ARTIST@,
        },
    }
}

/// The artist of a stored file.
pub fn detected_artist_for_file(file: &ResourceVariant, rules: PathRules) -> (r: String)
    ensures
        r@ == detected_artist(*file, rules.windows()),
{
    if let Some(artist) = stored_text(&file.music_artist) {
        return artist;
    }
    match infer_artist_from_directory(file.path.as_str(), file.root_path.as_str(), rules) {
        Some(artist) => artist,
        None => UNKNOWN_ARTIST.to_string(),
    }
}

/// The series among those that were found: a stored one, unless it is a date
/// and the file name says something else; else that of the file name; else
/// the stored title, if it is one; else that of the directories.
pub open spec fn chosen_series(
    stored: Option<Seq<char>>,
    from_file_name: Option<Seq<char>>,
    from_title: Option<Seq<char>>,
    from_directory: Option<Seq<char>>,
) -> Option<Seq<char>> {
    match (stored, from_file_name, from_title) {
        (Some(kept), Some(named), _) => if is_generated(kept) && replaces_stored(kept, named) {
            Some(named)
        } else {
            Some(kept)
        },
        (Some(kept), None, _) => Some(kept),
        (None, Some(named), _) => Some(named),
        (None, None, Some(title)) => Some(title),
        (None, None, None) => from_directory,
    }
}

/// The series among those that were found.
pub fn choose_series(
    stored: Option<String>,
    from_file_name: Option<String>,
    from_title: Option<String>,
    from_directory: Option<String>,
) -> (r: Option<String>)
    ensures
        opt_text(r) == chosen_series(
            opt_text(stored),
            opt_text(from_file_name),
            opt_text(from_title),
            opt_text(from_directory),
        ),
{
    if let Some(kept) = stored {
        if is_generated_directory_title(kept.as_str()) {
            if let Some(named) = from_file_name {
                if should_replace_stored_series(kept.as_str(), named.as_str()) {
                    return Some(named);
                }
            }
        }
        return Some(kept);
    }
    if let Some(named) = from_file_name {
        return Some(named);
    }
    if let Some(title) = from_title {
        return Some(title);
    }
    from_directory
}

/// The series of a stored file. A stored title that is a number comes last.
pub open spec fn detected_series(file: ResourceVariant, windows: bool) -> Option<Seq<char>> {
    chosen_series(
        match stored(file.series_title) {
            Some(title) => Some(series_name(title)),
            None => None,
        },
        stem_series(stem(file.file_name@, windows)),
        if is_worded_title(file.title_guess@) {
            Some(series_name(file.title_guess@))
        } else {
            None
        },
        match directory_series(file.path@, file.root_path@, windows) {
            Some(series) => Some(series),
            None => if is_title(file.title_guess@) {
                Some(series_name(file.title_guess@))
            } else {
                None
            },
        },
    )
}

/// The series of a stored file.
pub fn detected_series_for_file(file: &ResourceVariant, rules: PathRules) -> (r: Option<String>)
    ensures
        opt_text(r) == detected_series(*file, rules.windows()),
{
    if let Some(title) = stored_text(&file.series_title) {
        let kept = normalize_series_title(title.as_str());
        let from_file_name = if is_generated_directory_title(kept.as_str()) {
            infer_series_from_file_name(file.file_name.as_str(), rules)
        } else {
            None
        };
        return choose_series(Some(kept), from_file_name, None, None);
    }
    let from_file_name = infer_series_from_file_name(file.file_name.as_str(), rules);
    if from_file_name.is_some() {
        return choose_series(None, from_file_name, None, None);
    }
    if says_words(file.title_guess.as_str()) {
        let from_title = Some(normalize_series_title(file.title_guess.as_str()));
        return choose_series(None, None, from_title, None);
    }
    let from_directory = infer_series_from_directory(
        file.path.as_str(),
        file.root_path.as_str(),
        rules,
    );
    if from_directory.is_none() && is_detected_title(file.title_guess.as_str()) {
        let from_number = Some(normalize_series_title(file.title_guess.as_str()));
        return choose_series(None, None, None, from_number);
    }
    choose_series(None, None, None, from_directory)
}

// ---------------------------------------------------------------------------
// The groups a file is placed in
// ---------------------------------------------------------------------------

/// The subtitle of a group of series.
pub const FAMILY_SUBTITLE: &'static str = "作品族";

/// The group of a file of an artist.
pub open spec fn music_placement(
    artist: Seq<char>,
    subtitle: Option<Seq<char>>,
    file_size: i64,
    rules: Map<Seq<char>, Seq<char>>,
) -> PlacementModel {
    let source = source_key("music_artist"@, artist);
    let name = merged_name(rules, source, artist);
    PlacementModel {
        group: EntryModel {
            key: source_key("music_artist"@, name),
            name,
            subtitle,
            family_name: None,
            file_size,
            source_key: source,
            resource_key: source,
        },
        child: None,
    }
}

/// The group of a file of an artist.
pub fn place_music(
    artist: String,
    subtitle: Option<String>,
    file_size: i64,
    rules: &MergeRules,
) -> (r: Placement)
    ensures
        r.model() == music_placement(artist@, opt_text(subtitle), file_size, rules@),
{
    let source = group_source_key("music_artist", artist.as_str());
    let name = apply_merge_rule(source.as_str(), artist, rules);
    let key = group_source_key("music_artist", name.as_str());
    Placement {
        group: GroupEntry {
            key,
            name,
            subtitle,
            family_name: None,
            file_size,
            source_key: source.clone(),
            resource_key: source,
        },
        child: None,
    }
}

/// The groups of a file of a series: the group of the series alone, or inside
/// the group of its family.
pub open spec fn video_placement(
    series: Seq<char>,
    family: Option<Seq<char>>,
    subtitle: Option<Seq<char>>,
    file_size: i64,
    rules: Map<Seq<char>, Seq<char>>,
) -> PlacementModel {
    let source = source_key("video_series"@, series);
    let name = merged_name(rules, source, series);
    let own = EntryModel {
        key: source_key("video_series"@, name),
        name,
        subtitle,
        family_name: None,
        file_size,
        source_key: source,
        resource_key: source,
    };
    match family {
        None => PlacementModel { group: own, child: None },
        Some(family) => {
            let parent_source = source_key("video_series"@, family);
            let parent_name = merged_name(rules, parent_source, family);
            PlacementModel {
                group: EntryModel {
                    key: source_key("video_series"@, parent_name),
                    name: parent_name,
                    subtitle: Some(FAMILY_SUBTITLE@),
                    family_name: None,
                    file_size,
                    source_key: parent_source,
                    resource_key: source,
                },
                child: Some(EntryModel { family_name: Some(parent_name), ..own }),
            }
        },
    }
}

/// The groups of a file of a series.
pub fn place_video(
    series: String,
    family: Option<String>,
    subtitle: Option<String>,
    file_size: i64,
    rules: &MergeRules,
) -> (r: Placement)
    ensures
        r.model() == video_placement(
            series@,
            opt_text(family),
            opt_text(subtitle),
            file_size,
            rules@,
        ),
{
    let source = group_source_key("video_series", series.as_str());
    let name = apply_merge_rule(source.as_str(), series, rules);
    let key = group_source_key("video_series", name.as_str());
    match family {
        None => Placement {
            group: GroupEntry {
                key,
                name,
                subtitle,
                family_name: None,
                file_size,
                source_key: source.clone(),
                resource_key: source,
            },
            child: None,
        },
        Some(family) => {
            let parent_source = group_source_key("video_series", family.as_str());
            let parent_name = apply_merge_rule(parent_source.as_str(), family, rules);
            let parent_key = group_source_key("video_series", parent_name.as_str());
            let child = GroupEntry {
                key,
                name,
                subtitle,
                family_name: Some(parent_name.clone()),
                file_size,
                source_key: source.clone(),
                resource_key: source.clone(),
            };
            Placement {
                group: GroupEntry {
                    key: parent_key,
                    name: parent_name,
                    subtitle: Some(FAMILY_SUBTITLE.to_string()),
                    family_name: None,
                    file_size,
                    source_key: parent_source,
                    resource_key: source,
                },
                child: Some(child),
            }
        },
    }
}

/// The family of a series: that of a rule, else the one that was inferred.
pub open spec fn chosen_family(
    rules: Map<Seq<char>, Seq<char>>,
    series: Seq<char>,
    inferred: Option<Seq<char>>,
) -> Option<Seq<char>> {
    match usable_rule(rules, source_key("video_series"@, series)) {
        Some(family) => Some(family),
        None => inferred,
    }
}

/// Where the artist of a file comes from, as it is shown.
pub open spec fn artist_subtitle(file: ResourceVariant) -> Option<Seq<char>> {
    match file.music_artist_source {
        Some(source) => Some(artist_source_label(source@)),
        None => None,
    }
}

/// Where the series of a file comes from, as it is shown.
pub open spec fn series_subtitle(file: ResourceVariant) -> Option<Seq<char>> {
    match file.series_source {
        Some(source) => Some(series_label(source@)),
        None => None,
    }
}

/// The series of a stored file, or the unknown series.
pub open spec fn series_or_unknown(file: ResourceVariant, windows: bool) -> Seq<char> {
    match detected_series(file, windows) {
        Some(series) => series,
        None => UNKNOWN_SERIES@,
    }
}

/// The groups of a stored file: by its artist if it is music, else by its
/// series.
pub open spec fn placement_of(
    file: ResourceVariant,
    rules: LibraryRules,
    windows: bool,
) -> PlacementModel {
    if file.media_kind@ == "music"@ {
        music_placement(
            detected_artist(file, windows),
            artist_subtitle(file),
            file.file_size,
            rules.music_artist@,
        )
    } else {
        let series = series_or_unknown(file, windows);
        video_placement(
            series,
            chosen_family(
                rules.video_family@,
                series,
                series_family(file.path@, file.root_path@, series, windows),
            ),
            series_subtitle(file),
            file.file_size,
            rules.video_series@,
        )
    }
}

/// The groups of a stored file.
pub fn place_file(file: &ResourceVariant, rules: &LibraryRules, path_rules: PathRules) -> (r:
    Placement)
    ensures
        r.model() == placement_of(*file, *rules, path_rules.windows()),
{
    if same_text(file.media_kind.as_str(), "music") {
        let artist = detected_artist_for_file(file, path_rules);
        let subtitle = match &file.music_artist_source {
            Some(source) => Some(music_artist_source_label(source.as_str())),
            None => None,
        };
        return place_music(artist, subtitle, file.file_size, &rules.music_artist);
    }
    let series = match detected_series_for_file(file, path_rules) {
        Some(series) => series,
        None => UNKNOWN_SERIES.to_string(),
    };
    let subtitle = match &file.series_source {
        Some(source) => Some(series_source_label(source.as_str())),
        None => None,
    };
    let source = group_source_key("video_series", series.as_str());
    let family = match rules.video_family.usable(source.as_str()) {
        Some(family) => Some(family),
        None => infer_series_family(
            file.path.as_str(),
            file.root_path.as_str(),
            series.as_str(),
            path_rules,
        ),
    };
    place_video(series, family, subtitle, file.file_size, &rules.video_series)
}

// ---------------------------------------------------------------------------
// Laws
// ---------------------------------------------------------------------------

/// Files whose artists have the same key stand in the same group, with the
/// same rules.
pub proof fn one_artist_is_one_group(
    a: Seq<char>,
    b: Seq<char>,
    subtitles: (Option<Seq<char>>, Option<Seq<char>>),
    sizes: (i64, i64),
    rules: Map<Seq<char>, Seq<char>>,
)
    requires
        source_key("music_artist"@, a) == source_key("music_artist"@, b),
    ensures
        music_placement(a, subtitles.0, sizes.0, rules).group.key == music_placement(
            b,
            subtitles.1,
            sizes.1,
            rules,
        ).group.key,
{
}

/// Rules with one name put groups together: files whose artists have such
/// rules stand in one group, under this name.
pub proof fn rules_put_groups_together(
    a: Seq<char>,
    b: Seq<char>,
    name: Seq<char>,
    subtitles: (Option<Seq<char>>, Option<Seq<char>>),
    sizes: (i64, i64),
    rules: Map<Seq<char>, Seq<char>>,
)
    requires
        usable_rule(rules, source_key("music_artist"@, a)) == Some(name),
        usable_rule(rules, source_key("music_artist"@, b)) == Some(name),
    ensures
        music_placement(a, subtitles.0, sizes.0, rules).group.key == source_key(
            "music_artist"@,
            name,
        ),
        music_placement(b, subtitles.1, sizes.1, rules).group.key == source_key(
            "music_artist"@,
            name,
        ),
        music_placement(a, subtitles.0, sizes.0, rules).group.name == name,
        music_placement(b, subtitles.1, sizes.1, rules).group.name == name,
{
}

/// What a placement says of the series itself: the entry inside the family
/// where there is one.
pub open spec fn series_entry(placement: PlacementModel) -> EntryModel {
    match placement.child {
        Some(child) => child,
        None => placement.group,
    }
}

/// Files whose series have the same key stand in the same group of the series,
/// with the same rules, whatever families they are in; without a family, or
/// with the same one, they stand in the same shown group too.
pub proof fn one_series_is_one_group(
    a: Seq<char>,
    b: Seq<char>,
    families: (Option<Seq<char>>, Option<Seq<char>>),
    subtitles: (Option<Seq<char>>, Option<Seq<char>>),
    sizes: (i64, i64),
    rules: Map<Seq<char>, Seq<char>>,
)
    requires
        source_key("video_series"@, a) == source_key("video_series"@, b),
    ensures
        ({
            let first = video_placement(a, families.0, subtitles.0, sizes.0, rules);
            let second = video_placement(b, families.1, subtitles.1, sizes.1, rules);
            &&& series_entry(first).key == series_entry(second).key
            &&& families.0 == families.1 ==> first.group.key == second.group.key
        }),
{
}

/// Rules with one name put series together: files whose series have such rules
/// stand in one group of a series, under this name, and those whose families
/// have such rules in one group of a family.
pub proof fn rules_put_series_together(
    series: Seq<char>,
    family: Option<Seq<char>>,
    name: Seq<char>,
    subtitle: Option<Seq<char>>,
    file_size: i64,
    rules: Map<Seq<char>, Seq<char>>,
)
    ensures
        ({
            let placement = video_placement(series, family, subtitle, file_size, rules);
            &&& usable_rule(rules, source_key("video_series"@, series)) == Some(name) ==> {
                &&& series_entry(placement).key == source_key("video_series"@, name)
                &&& series_entry(placement).name == name
            }
            &&& family is Some && usable_rule(rules, source_key("video_series"@, family->0))
                == Some(name) ==> {
                &&& placement.group.key == source_key("video_series"@, name)
                &&& placement.group.name == name
            }
        }),
{
}

/// A series of a family stands inside the group of the family, and there in
/// the group that it would have alone.
pub proof fn families_hold_their_series(
    series: Seq<char>,
    family: Seq<char>,
    subtitle: Option<Seq<char>>,
    file_size: i64,
    rules: Map<Seq<char>, Seq<char>>,
)
    ensures
        ({
            let alone = video_placement(series, None, subtitle, file_size, rules);
            let inside = video_placement(series, Some(family), subtitle, file_size, rules);
            &&& alone.child is None
            &&& inside.child is Some
            &&& inside.child->0.key == alone.group.key
            &&& inside.child->0.name == alone.group.name
            &&& inside.child->0.family_name == Some(inside.group.name)
            &&& inside.group.resource_key == alone.group.source_key
        }),
{
}

/// A blank name in a rule changes nothing.
pub proof fn blank_rules_change_nothing(
    rules: Map<Seq<char>, Seq<char>>,
    source: Seq<char>,
    blank: Seq<char>,
    detected: Seq<char>,
)
    requires
        is_blank(blank),
    ensures
        merged_name(rules.insert(source, blank), source, detected) == detected,
{
}

} // verus!
