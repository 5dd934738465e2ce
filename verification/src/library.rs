//! The library: directories and groups of the stored files, searched and
//! sorted.

use vstd::hash_map::StringHashMap;
use vstd::hash_set::StringHashSet;
use vstd::prelude::*;

use crate::analysis::{directory_of, directory_path_of};
use crate::directories::{relative_directory_path, shown_directory, ROOT_DIRECTORY};
use crate::grouping::{
    distinct, distinct_keys_are_the_keys, group_placements, groups_of, placement_models, Placement,
    PlacementModel,
};
use crate::groups::{
    found_groups, group_models, in_order, retain_matching_groups, sort_groups, sorted_groups,
    sorting_groups_orders_every_level, GroupModel, MediaGroup,
};
use crate::media::ResourceVariant;
use crate::order::{
    ascending, lemma_insert_keeps_order, place_of, sorting_orders_and_keeps, stable_sorted,
};
use crate::paths::{path_below, path_file_name, path_parent, PathRules};
use crate::rules::{place_file, placement_of, LibraryRules};
use crate::text::{contains_text, has_text, opt_text, same_text, texts, trim_text, trimmed, CharClass};
use crate::titles::media_directory_match_key;
use crate::unicode::lowercase;

verus! {

// ---------------------------------------------------------------------------
// Directories
// ---------------------------------------------------------------------------

/// A directory with files of one kind.
pub struct MediaDirectory {
    pub key: String,
    pub path: String,
    pub name: String,
    pub relative_path: String,
    pub parent_name: Option<String>,
    pub media_kind: String,
    pub file_count: usize,
    pub total_size: i64,
}

/// A directory as a value.
pub struct DirectoryModel {
    pub key: Seq<char>,
    pub path: Seq<char>,
    pub name: Seq<char>,
    pub relative_path: Seq<char>,
    pub parent_name: Option<Seq<char>>,
    pub media_kind: Seq<char>,
    pub file_count: nat,
    pub total_size: i64,
}

impl MediaDirectory {
    pub open spec fn model(self) -> DirectoryModel {
        DirectoryModel {
            key: self.key@,
            path: self.path@,
            name: self.name@,
            relative_path: self.relative_path@,
            parent_name: opt_text(self.parent_name),
            media_kind: self.media_kind@,
            file_count: self.file_count as nat,
            total_size: self.total_size,
        }
    }
}

/// Directories as values.
pub open spec fn directory_models(directories: Seq<MediaDirectory>) -> Seq<DirectoryModel> {
    directories.map_values(|d: MediaDirectory| d.model())
}

/// The keys of directories.
pub open spec fn keys_of_directories(directories: Seq<DirectoryModel>) -> Seq<Seq<char>> {
    directories.map_values(|d: DirectoryModel| d.key)
}

/// The key of the directory of a file: its path.
pub open spec fn directory_key(file: ResourceVariant, windows: bool) -> Seq<char> {
    directory_of(file.path@, file.root_path@, windows)
}

/// The directory of a file, before any file is counted in it.
pub open spec fn empty_directory(file: ResourceVariant, windows: bool) -> DirectoryModel {
    let path = directory_key(file, windows);
    DirectoryModel {
        key: path,
        path,
        name: match path_file_name(path, windows) {
            Some(name) => name,
            None => ROOT_DIRECTORY@,
        },
        relative_path: shown_directory(
            path_below(path, file.root_path@, windows),
            path_file_name(path, windows),
        ),
        parent_name: match path_parent(path, windows) {
            Some(parent) => path_file_name(parent, windows),
            None => None,
        },
        media_kind: file.media_kind@,
        file_count: 0,
        total_size: 0,
    }
}

/// A directory with one file more. Sizes are added as 64-bit integers,
/// wrapping around.
pub open spec fn counted(directory: DirectoryModel, file: ResourceVariant) -> DirectoryModel {
    DirectoryModel {
        file_count: directory.file_count + 1,
        total_size: directory.total_size.wrapping_add(file.file_size),
        ..directory
    }
}

/// Directories with one file more: counted in its directory, which comes last
/// if it is new.
pub open spec fn with_file_in(
    directories: Seq<DirectoryModel>,
    file: ResourceVariant,
    windows: bool,
) -> Seq<DirectoryModel> {
    let keys = keys_of_directories(directories);
    let key = directory_key(file, windows);
    if keys.contains(key) {
        let at = keys.index_of(key);
        directories.update(at, counted(directories[at], file))
    } else {
        directories.push(counted(empty_directory(file, windows), file))
    }
}

/// Directories that files are being added to.
pub struct DirectoryTable {
    index: StringHashMap<usize>,
    list: Vec<MediaDirectory>,
    added: usize,
}

impl View for DirectoryTable {
    type V = Seq<DirectoryModel>;

    closed spec fn view(&self) -> Seq<DirectoryModel> {
        directory_models(self.list@)
    }
}

impl DirectoryTable {
    /// How many files were added.
    pub closed spec fn files(self) -> nat {
        self.added as nat
    }

    /// Every directory stands under its key, once.
    pub closed spec fn wf(self) -> bool {
        let keys = keys_of_directories(self@);
        &&& keys.no_duplicates()
        &&& forall|k: Seq<char>| #[trigger] self.index@.contains_key(k) <==> keys.contains(k)
        &&& forall|k: Seq<char>| #[trigger]
            self.index@.contains_key(k) ==> self.index@[k] < keys.len()
                && keys[self.index@[k] as int] == k
        &&& forall|i: int|
            0 <= i < self.list@.len() ==> (#[trigger] self.list@[i]).file_count <= self.added
    }

    /// No directories.
    pub fn new() -> (r: Self)
        ensures
            r.wf(),
            r@ == Seq::<DirectoryModel>::empty(),
            r.files() == 0,
    {
        let r = DirectoryTable { index: StringHashMap::new(), list: Vec::new(), added: 0 };
        proof {
            assert(r@ =~= Seq::empty());
            assert(keys_of_directories(r@) =~= Seq::empty());
        }
        r
    }

    /// The directories.
    pub fn into_list(self) -> (r: Vec<MediaDirectory>)
        ensures
            directory_models(r@) == self@,
    {
        self.list
    }
}

fn new_directory(file: &ResourceVariant, path: &str, rules: PathRules) -> (r: MediaDirectory)
    requires
        path@ == directory_key(*file, rules.windows()),
    ensures
        r.model() == empty_directory(*file, rules.windows()),
{
    let name = match rules.file_name(path) {
        Some(name) => name,
        None => ROOT_DIRECTORY.to_string(),
    };
    let parent_name = match rules.parent(path) {
        Some(parent) => rules.file_name(parent.as_str()),
        None => None,
    };
    MediaDirectory {
        key: path.to_string(),
        path: path.to_string(),
        name,
        relative_path: relative_directory_path(file.root_path.as_str(), path, rules),
        parent_name,
        media_kind: file.media_kind.clone(),
        file_count: 0,
        total_size: 0,
    }
}

/// Counts a file in its directory, and gives the key of the directory.
pub fn add_file_to_directory(
    directories: &mut DirectoryTable,
    file: &ResourceVariant,
    rules: PathRules,
) -> (r: String)
    requires
        old(directories).wf(),
        old(directories).files() < usize::MAX,
    ensures
        final(directories).wf(),
        final(directories).files() == old(directories).files() + 1,
        final(directories)@ == with_file_in(old(directories)@, *file, rules.windows()),
        r@ == directory_key(*file, rules.windows()),
{
    let key = directory_path_of(file.path.as_str(), file.root_path.as_str(), rules);
    let ghost before = directories@;
    let ghost keys = keys_of_directories(before);
    directories.added += 1;
    let found = match directories.index.get(key.as_str()) {
        Some(at) => Some(*at),
        None => None,
    };
    match found {
        Some(at) => {
            proof {
                assert(keys.index_of(key@) == at);
                assert(keys[at as int] == key@);
                assert(before[at as int] == directories.list@[at as int].model());
            }
            let size = directories.list[at].total_size.wrapping_add(file.file_size);
            directories.list[at].file_count += 1;
            directories.list[at].total_size = size;
            proof {
                assert(directories@ =~= before.update(at as int, counted(before[at as int], *file)));
                assert(keys_of_directories(directories@) =~= keys);
            }
        },
        None => {
            let at = directories.list.len();
            let mut directory = new_directory(file, key.as_str(), rules);
            directory.file_count = 1;
            directory.total_size = directory.total_size.wrapping_add(file.file_size);
            let ghost added = directory.model();
            directories.list.push(directory);
            directories.index.insert(key.clone(), at);
            proof {
                assert(directories@ =~= before.push(added));
                let now = keys_of_directories(directories@);
                assert(now =~= keys.push(key@));
                assert forall|k: Seq<char>| #[trigger]
                    directories.index@.contains_key(k) <==> now.contains(k) by {
                    if keys.contains(k) {
                        let i = choose|i: int| 0 <= i < keys.len() && keys[i] == k;
                        assert(now[i] == k);
                    }
                    if now.contains(k) && k != key@ {
                        let i = choose|i: int| 0 <= i < now.len() && now[i] == k;
                        assert(keys[i] == k);
                    }
                    assert(now[keys.len() as int] == key@);
                }
                assert forall|i: int, j: int|
                    0 <= i < now.len() && 0 <= j < now.len() && i != j implies now[i] != now[j] by {
                    if i < keys.len() {
                        assert(keys.contains(keys[i]));
                    }
                    if j < keys.len() {
                        assert(keys.contains(keys[j]));
                    }
                }
            }
        },
    }
    key
}

// ---------------------------------------------------------------------------
// The directories of files
// ---------------------------------------------------------------------------

/// The sum of the sizes of files, as 64-bit integers that wrap around.
pub open spec fn size_of_files(files: Seq<ResourceVariant>) -> i64
    decreases files.len(),
{
    if files.len() == 0 {
        0
    } else {
        size_of_files(files.drop_last()).wrapping_add(files.last().file_size)
    }
}

/// The keys of the directories of files.
pub open spec fn directory_keys(files: Seq<ResourceVariant>, windows: bool) -> Seq<Seq<char>> {
    files.map_values(|f: ResourceVariant| directory_key(f, windows))
}

/// The files in a directory.
pub open spec fn files_in_directory(
    files: Seq<ResourceVariant>,
    key: Seq<char>,
    windows: bool,
) -> Seq<ResourceVariant> {
    files.filter(|f: ResourceVariant| directory_key(f, windows) == key)
}

/// The directory of files that all lie in it.
pub open spec fn directory_of_files(files: Seq<ResourceVariant>, windows: bool) -> DirectoryModel {
    DirectoryModel {
        file_count: files.len(),
        total_size: size_of_files(files),
        ..empty_directory(files[0], windows)
    }
}

/// The directories of files: one for each key, in the order in which the keys
/// first occur.
pub open spec fn directories_of(files: Seq<ResourceVariant>, windows: bool) -> Seq<DirectoryModel> {
    distinct(directory_keys(files, windows)).map_values(
        |key: Seq<char>| directory_of_files(files_in_directory(files, key, windows), windows),
    )
}

proof fn lemma_filter_push<T>(items: Seq<T>, item: T, keep: spec_fn(T) -> bool)
    ensures
        items.push(item).filter(keep) == (if keep(item) {
            items.filter(keep).push(item)
        } else {
            items.filter(keep)
        }),
{
    reveal(Seq::filter);
    assert(items.push(item).drop_last() =~= items);
}

/// A filter holds the items that it keeps, and no others.
pub proof fn lemma_filter<T>(items: Seq<T>, keep: spec_fn(T) -> bool)
    ensures
        forall|i: int|
            0 <= i < items.filter(keep).len() ==> keep(#[trigger] items.filter(keep)[i])
                && items.contains(items.filter(keep)[i]),
        forall|i: int|
            0 <= i < items.len() && keep(#[trigger] items[i]) ==> items.filter(keep).contains(
                items[i],
            ),
    decreases items.len(),
{
    reveal(Seq::filter);
    if items.len() > 0 {
        let before = items.drop_last();
        let held = items.filter(keep);
        lemma_filter(before, keep);
        assert forall|i: int| 0 <= i < held.len() implies keep(#[trigger] held[i])
            && items.contains(held[i]) by {
            if i < before.filter(keep).len() {
                assert(before.contains(before.filter(keep)[i]));
                let j = choose|j: int|
                    0 <= j < before.len() && before[j] == before.filter(keep)[i];
                assert(items[j] == held[i]);
            } else {
                assert(items[items.len() - 1] == held[i]);
            }
        }
        assert forall|i: int| 0 <= i < items.len() && keep(#[trigger] items[i]) implies held.contains(
            items[i],
        ) by {
            if i < items.len() - 1 {
                assert(before[i] == items[i]);
                assert(before.filter(keep).contains(before[i]));
                let j = choose|j: int|
                    0 <= j < before.filter(keep).len() && before.filter(keep)[j] == before[i];
                assert(held[j] == items[i]);
            } else {
                assert(held[held.len() - 1] == items[i]);
            }
        }
    }
}

/// The directories of files have the distinct keys of the files.
pub proof fn directories_have_the_keys(files: Seq<ResourceVariant>, windows: bool)
    ensures
        keys_of_directories(directories_of(files, windows)) == distinct(
            directory_keys(files, windows),
        ),
        keys_of_directories(directories_of(files, windows)).no_duplicates(),
{
    let all = directory_keys(files, windows);
    let keys = distinct(all);
    let directories = directories_of(files, windows);
    distinct_keys_are_the_keys(all);
    assert forall|i: int| 0 <= i < keys.len() implies #[trigger] directories[i].key == keys[i] by {
        let keep = |f: ResourceVariant| directory_key(f, windows) == keys[i];
        lemma_filter(files, keep);
        assert(keys.contains(keys[i]));
        assert(all.contains(keys[i]));
        let j = choose|j: int| 0 <= j < all.len() && all[j] == keys[i];
        assert(keep(files[j]));
        assert(files.filter(keep).contains(files[j]));
        assert(keep(files.filter(keep)[0]));
    }
    assert(keys_of_directories(directories) =~= keys);
}

proof fn lemma_directories_push(files: Seq<ResourceVariant>, file: ResourceVariant, windows: bool)
    ensures
        directories_of(files.push(file), windows) == with_file_in(
            directories_of(files, windows),
            file,
            windows,
        ),
{
    let before = directories_of(files, windows);
    let after = directories_of(files.push(file), windows);
    let all = directory_keys(files, windows);
    let keys = distinct(all);
    let key = directory_key(file, windows);
    directories_have_the_keys(files, windows);
    distinct_keys_are_the_keys(all);
    assert(directory_keys(files.push(file), windows).drop_last() =~= all);
    assert(directory_keys(files.push(file), windows).last() == key);
    let now = distinct(directory_keys(files.push(file), windows));
    let expected = with_file_in(before, file, windows);
    assert(after.len() == expected.len());
    assert forall|i: int| 0 <= i < after.len() implies #[trigger] after[i] == expected[i] by {
        let keep = |f: ResourceVariant| directory_key(f, windows) == now[i];
        lemma_filter_push(files, file, keep);
        let held = files.filter(keep);
        if now[i] == key {
            assert(held.push(file).drop_last() =~= held);
            if keys.contains(key) {
                assert(keys[i] == key);
                assert(keys.index_of(key) == i);
                lemma_filter(files, keep);
                assert(all.contains(key));
                let j = choose|j: int| 0 <= j < all.len() && all[j] == key;
                assert(keep(files[j]));
                assert(held.contains(files[j]));
                assert(held.push(file)[0] == held[0]);
            } else {
                assert(held.len() == 0) by {
                    lemma_filter(files, keep);
                    if held.len() > 0 {
                        assert(keep(held[0]));
                        let j = choose|j: int| 0 <= j < files.len() && files[j] == held[0];
                        assert(all[j] == key);
                        assert(all.contains(key));
                    }
                }
                assert(held =~= Seq::empty());
                assert(held.push(file)[0] == file);
                assert(size_of_files(held) == 0);
            }
        } else {
            assert(keys[i] == now[i]);
            assert(keys.contains(key) ==> keys.index_of(key) != i);
        }
    }
    assert(after =~= expected);
}

// ---------------------------------------------------------------------------
// Sorting and searching directories
// ---------------------------------------------------------------------------

/// What directories are sorted by: their relative paths in lower case.
pub open spec fn directory_sort_key(directory: DirectoryModel) -> Seq<char> {
    lowercase(directory.relative_path)
}

/// Directories in the order of their relative paths in lower case; those with
/// the same path in the order in which they came.
pub open spec fn sorted_directories(directories: Seq<DirectoryModel>) -> Seq<DirectoryModel> {
    stable_sorted(directories, |d: DirectoryModel| directory_sort_key(d))
}

/// Sorts directories by their relative paths.
pub fn sort_directories(directories: &mut Vec<MediaDirectory>)
    ensures
        directory_models(final(directories)@) == sorted_directories(
            directory_models(old(directories)@),
        ),
{
    let mut taken: Vec<MediaDirectory> = Vec::new();
    std::mem::swap(directories, &mut taken);
    let ghost all = directory_models(taken@);
    let ghost key = |d: DirectoryModel| directory_sort_key(d);
    let mut sorted: Vec<MediaDirectory> = Vec::new();
    let mut keys: Vec<String> = Vec::new();
    proof {
        assert(directory_models(sorted@) =~= Seq::empty());
        assert(all.take(0) =~= Seq::empty());
        assert(texts(keys@) =~= directory_models(sorted@).map_values(key));
    }
    for directory in it: taken
        invariant
            it.seq() == taken@,
            all == directory_models(taken@),
            key == |d: DirectoryModel| directory_sort_key(d),
            directory_models(sorted@) == stable_sorted(all.take(it.index() as int), key),
            texts(keys@) == directory_models(sorted@).map_values(key),
            ascending(texts(keys@)),
            keys@.len() == sorted@.len(),
    {
        let ghost n = it.index() as int;
        let ghost model = directory.model();
        proof {
            assert(all.take(n + 1).drop_last() =~= all.take(n));
            assert(all.take(n + 1).last() == model);
        }
        let sort_key = directory.relative_path.as_str().to_lowercase();
        let at = place_of(&keys, sort_key.as_str());
        let ghost before = sorted@;
        let ghost before_keys = texts(keys@);
        let ghost added_key = sort_key@;
        proof {
            lemma_insert_keeps_order(before_keys, added_key);
        }
        sorted.insert(at, directory);
        keys.insert(at, sort_key);
        proof {
            assert(directory_models(sorted@) =~= directory_models(before).insert(at as int, model));
            assert(texts(keys@) =~= before_keys.insert(at as int, added_key));
            assert(directory_models(sorted@).map_values(key) =~= before_keys.insert(
                at as int,
                added_key,
            ));
        }
    }
    proof {
        assert(all.take(taken@.len() as int) =~= all);
    }
    *directories = sorted;
}

/// A search is found in the name or a path of a directory.
pub open spec fn directory_found(directory: DirectoryModel, search: Seq<char>) -> bool {
    ||| has_text(lowercase(directory.name), search)
    ||| has_text(lowercase(directory.relative_path), search)
    ||| has_text(lowercase(directory.path), search)
}

/// Whether a search is found in the name or a path of a directory.
pub fn directory_summary_matches(directory: &MediaDirectory, search: &str) -> (r: bool)
    ensures
        r == directory_found(directory.model(), search@),
{
    let name = directory.name.as_str().to_lowercase();
    let relative_path = directory.relative_path.as_str().to_lowercase();
    let path = directory.path.as_str().to_lowercase();
    contains_text(name.as_str(), search) || contains_text(relative_path.as_str(), search)
        || contains_text(path.as_str(), search)
}

/// A search is found in the name or the path of a file.
pub open spec fn file_found(file: ResourceVariant, search: Seq<char>) -> bool {
    has_text(lowercase(file.file_name@), search) || has_text(lowercase(file.path@), search)
}

/// Whether a search is found in the name or the path of a file.
pub fn file_matches(file: &ResourceVariant, search: &str) -> (r: bool)
    ensures
        r == file_found(*file, search@),
{
    let name = file.file_name.as_str().to_lowercase();
    let path = file.path.as_str().to_lowercase();
    contains_text(name.as_str(), search) || contains_text(path.as_str(), search)
}

/// What a query searches for: its text without white space around it, in
/// lower case; nothing if that is empty.
pub open spec fn search_of(query: Option<Seq<char>>) -> Option<Seq<char>> {
    match query {
        Some(text) => {
            let trimmed = trimmed(text, CharClass::Space);
            if trimmed.len() == 0 {
                None
            } else {
                Some(lowercase(trimmed))
            }
        },
        None => None,
    }
}

/// The text of an optional query.
pub open spec fn query_text(query: Option<&str>) -> Option<Seq<char>> {
    match query {
        Some(text) => Some(text@),
        None => None,
    }
}

/// What a query searches for.
pub fn search_text(query: Option<&str>) -> (r: Option<String>)
    ensures
        opt_text(r) == search_of(query_text(query)),
{
    match query {
        Some(text) => {
            let trimmed = trim_text(text);
            if trimmed.as_str().is_empty() {
                None
            } else {
                Some(trimmed.as_str().to_lowercase())
            }
        },
        None => None,
    }
}

// ---------------------------------------------------------------------------
// The library
// ---------------------------------------------------------------------------

/// The directories and groups of a library, as they are shown.
pub struct LibraryData {
    pub music_directories: Vec<MediaDirectory>,
    pub video_directories: Vec<MediaDirectory>,
    pub music_artists: Vec<MediaGroup>,
    pub video_series: Vec<MediaGroup>,
}

/// Whether a file is of a kind.
pub open spec fn kind_is(kind: Seq<char>) -> spec_fn(ResourceVariant) -> bool {
    |f: ResourceVariant| f.media_kind@ == kind
}

/// The files of a kind.
pub open spec fn of_kind(files: Seq<ResourceVariant>, kind: Seq<char>) -> Seq<ResourceVariant> {
    files.filter(kind_is(kind))
}

/// A file of music or a video: no other file is shown.
pub open spec fn is_shown(file: ResourceVariant) -> bool {
    file.media_kind@ == "music"@ || file.media_kind@ == "video"@
}

/// A file that a search finds lies in the directory of a key.
pub open spec fn holds_found_file(
    files: Seq<ResourceVariant>,
    key: Seq<char>,
    search: Seq<char>,
    windows: bool,
) -> bool {
    exists|i: int|
        0 <= i < files.len() && file_found(#[trigger] files[i], search) && directory_key(
            files[i],
            windows,
        ) == key
}

/// The directories of files that a search finds: by their names and paths, or
/// by one of the files in them. Without a search, all of them.
pub open spec fn found_directories(
    files: Seq<ResourceVariant>,
    search: Option<Seq<char>>,
    windows: bool,
) -> Seq<DirectoryModel> {
    match search {
        Some(text) => directories_of(files, windows).filter(
            |d: DirectoryModel|
                directory_found(d, text) || holds_found_file(files, d.key, text, windows),
        ),
        None => directories_of(files, windows),
    }
}

/// A key is that of one of the groups a file is placed in.
pub open spec fn is_placed_in(placement: PlacementModel, key: Seq<char>) -> bool {
    placement.group.key == key || (placement.child is Some && placement.child->0.key == key)
}

/// The keys of the groups with a file that a search finds.
pub open spec fn found_group_keys(
    files: Seq<ResourceVariant>,
    rules: LibraryRules,
    search: Seq<char>,
    windows: bool,
) -> Set<Seq<char>> {
    Set::new(
        |key: Seq<char>|
            exists|i: int|
                0 <= i < files.len() && is_shown(#[trigger] files[i]) && file_found(
                    files[i],
                    search,
                ) && is_placed_in(placement_of(files[i], rules, windows), key),
    )
}

/// Where the files belong.
pub open spec fn placements_of(
    files: Seq<ResourceVariant>,
    rules: LibraryRules,
    windows: bool,
) -> Seq<PlacementModel> {
    files.map_values(|f: ResourceVariant| placement_of(f, rules, windows))
}

/// The groups of the files of a kind that a search finds, sorted. Without a
/// search, all of them.
pub open spec fn shown_groups(
    files: Seq<ResourceVariant>,
    kind: Seq<char>,
    rules: LibraryRules,
    search: Option<Seq<char>>,
    windows: bool,
) -> Seq<GroupModel> {
    let groups = groups_of(placements_of(of_kind(files, kind), rules, windows));
    sorted_groups(
        match search {
            Some(text) => found_groups(groups, text, found_group_keys(files, rules, text, windows)),
            None => groups,
        },
    )
}

/// The directories of the files of a kind that a search finds, sorted.
pub open spec fn shown_directories(
    files: Seq<ResourceVariant>,
    kind: Seq<char>,
    search: Option<Seq<char>>,
    windows: bool,
) -> Seq<DirectoryModel> {
    sorted_directories(found_directories(of_kind(files, kind), search, windows))
}

/// The key of a directory among those with found files.
spec fn match_key(kind: Seq<char>, key: Seq<char>) -> Seq<char> {
    kind + seq![':'] + key
}

/// The keys of the directories with a file that a search finds.
spec fn found_directory_keys(
    files: Seq<ResourceVariant>,
    search: Seq<char>,
    windows: bool,
) -> Set<Seq<char>> {
    Set::new(
        |key: Seq<char>|
            exists|i: int|
                0 <= i < files.len() && is_shown(#[trigger] files[i]) && file_found(
                    files[i],
                    search,
                ) && key == match_key(files[i].media_kind@, directory_key(files[i], windows)),
    )
}

proof fn lemma_match_keys(kind: Seq<char>, other: Seq<char>, a: Seq<char>, b: Seq<char>)
    requires
        kind == "music"@ || kind == "video"@,
        other == "music"@ || other == "video"@,
        match_key(kind, a) == match_key(other, b),
    ensures
        kind == other,
        a == b,
{
    reveal_strlit("music");
    reveal_strlit("video");
    assert(match_key(kind, a)[0] == kind[0]);
    assert(match_key(other, b)[0] == other[0]);
    assert(kind == other);
    assert(a =~= match_key(kind, a).skip(6));
    assert(b =~= match_key(other, b).skip(6));
}

proof fn lemma_of_kind_has(files: Seq<ResourceVariant>, kind: Seq<char>, i: int)
    requires
        0 <= i < files.len(),
        files[i].media_kind@ == kind,
    ensures
        of_kind(files, kind).contains(files[i]),
{
    let keep = kind_is(kind);
    lemma_filter(files, keep);
    assert(keep(files[i]));
}

proof fn lemma_of_kind_from(files: Seq<ResourceVariant>, kind: Seq<char>, i: int)
    requires
        0 <= i < of_kind(files, kind).len(),
    ensures
        of_kind(files, kind)[i].media_kind@ == kind,
        files.contains(of_kind(files, kind)[i]),
{
    let keep = kind_is(kind);
    lemma_filter(files, keep);
    assert(keep(files.filter(keep)[i]) && files.contains(files.filter(keep)[i]));
}

proof fn lemma_found_directory(
    files: Seq<ResourceVariant>,
    kind: Seq<char>,
    key: Seq<char>,
    search: Seq<char>,
    windows: bool,
)
    requires
        kind == "music"@ || kind == "video"@,
    ensures
        found_directory_keys(files, search, windows).contains(match_key(kind, key))
            <==> holds_found_file(of_kind(files, kind), key, search, windows),
{
    let held = of_kind(files, kind);
    if found_directory_keys(files, search, windows).contains(match_key(kind, key)) {
        let i = choose|i: int|
            0 <= i < files.len() && is_shown(#[trigger] files[i]) && file_found(files[i], search)
                && match_key(kind, key) == match_key(
                files[i].media_kind@,
                directory_key(files[i], windows),
            );
        lemma_match_keys(
            kind,
            files[i].media_kind@,
            key,
            directory_key(files[i], windows),
        );
        lemma_of_kind_has(files, kind, i);
        let j = choose|j: int| 0 <= j < held.len() && held[j] == files[i];
        assert(file_found(held[j], search));
    }
    if holds_found_file(held, key, search, windows) {
        let j = choose|j: int|
            0 <= j < held.len() && file_found(#[trigger] held[j], search) && directory_key(
                held[j],
                windows,
            ) == key;
        lemma_of_kind_from(files, kind, j);
        let i = choose|i: int| 0 <= i < files.len() && files[i] == held[j];
        assert(is_shown(files[i]) && file_found(files[i], search));
    }
}

/// Leaves the directories that a search finds.
fn retain_directories(
    directories: Vec<MediaDirectory>,
    kind: &str,
    search: &str,
    matched: &StringHashSet,
) -> (r: Vec<MediaDirectory>)
    ensures
        directory_models(r@) == directory_models(directories@).filter(
            |d: DirectoryModel|
                directory_found(d, search@) || matched@.contains(match_key(kind@, d.key)),
        ),
{
    let ghost all = directory_models(directories@);
    let ghost keep = |d: DirectoryModel|
        directory_found(d, search@) || matched@.contains(match_key(kind@, d.key));
    let mut kept: Vec<MediaDirectory> = Vec::new();
    proof {
        reveal(Seq::filter);
        assert(all.take(0) =~= Seq::empty());
        assert(directory_models(kept@) =~= Seq::empty());
    }
    for directory in it: directories
        invariant
            it.seq() == directories@,
            all == directory_models(directories@),
            keep == |d: DirectoryModel|
                directory_found(d, search@) || matched@.contains(match_key(kind@, d.key)),
            directory_models(kept@) == all.take(it.index() as int).filter(keep),
    {
        let ghost n = it.index() as int;
        let ghost model = directory.model();
        let ghost before = kept@;
        proof {
            assert(all.take(n + 1) =~= all.take(n).push(model));
            lemma_filter_push(all.take(n), model, keep);
        }
        let key = media_directory_match_key(kind, directory.key.as_str());
        if directory_summary_matches(&directory, search) || matched.contains(key.as_str()) {
            kept.push(directory);
            proof {
                assert(directory_models(kept@) =~= directory_models(before).push(model));
            }
        }
    }
    proof {
        assert(all.take(directories@.len() as int) =~= all);
    }
    kept
}

/// Directories as they are shown: those that a search finds, sorted.
fn show_directories(
    directories: Vec<MediaDirectory>,
    kind: &str,
    search: &Option<String>,
    matched: &StringHashSet,
    Ghost(files): Ghost<Seq<ResourceVariant>>,
    Ghost(windows): Ghost<bool>,
) -> (r: Vec<MediaDirectory>)
    requires
        kind@ == "music"@ || kind@ == "video"@,
        directory_models(directories@) == directories_of(of_kind(files, kind@), windows),
        search matches Some(text) ==> matched@ == found_directory_keys(files, text@, windows),
    ensures
        directory_models(r@) == shown_directories(files, kind@, opt_text(*search), windows),
{
    let mut shown = match search {
        Some(text) => {
            proof {
                let by_key = |d: DirectoryModel|
                    directory_found(d, text@) || matched@.contains(match_key(kind@, d.key));
                let by_file = |d: DirectoryModel|
                    directory_found(d, text@) || holds_found_file(
                        of_kind(files, kind@),
                        d.key,
                        text@,
                        windows,
                    );
                assert forall|d: DirectoryModel| #[trigger] by_key(d) == by_file(d) by {
                    lemma_found_directory(files, kind@, d.key, text@, windows);
                }
                assert(by_key =~= by_file);
            }
            retain_directories(directories, kind, text.as_str(), matched)
        },
        None => directories,
    };
    sort_directories(&mut shown);
    shown
}

/// Groups as they are shown: those that a search finds, sorted.
fn show_groups(
    placements: Vec<Placement>,
    search: &Option<String>,
    matched: &StringHashSet,
) -> (r: Vec<MediaGroup>)
    ensures
        group_models(r@) == sorted_groups(
            match *search {
                Some(text) => found_groups(
                    groups_of(placement_models(placements@)),
                    text@,
                    matched@,
                ),
                None => groups_of(placement_models(placements@)),
            },
        ),
{
    let mut groups = group_placements(placements);
    if let Some(text) = search {
        retain_matching_groups(&mut groups, text.as_str(), matched);
    }
    sort_groups(&mut groups);
    groups
}

/// The library of stored files: the directories and groups of music and of
/// videos that a query finds, sorted.
pub fn load_library(
    files: &Vec<ResourceVariant>,
    rules: &LibraryRules,
    query: Option<&str>,
    path_rules: PathRules,
) -> (r: LibraryData)
    ensures
        ({
            let search = search_of(query_text(query));
            let windows = path_rules.windows();
            &&& directory_models(r.music_directories@) == shown_directories(
                files@,
                "music"@,
                search,
                windows,
            )
            &&& directory_models(r.video_directories@) == shown_directories(
                files@,
                "video"@,
                search,
                windows,
            )
            &&& group_models(r.music_artists@) == shown_groups(
                files@,
                "music"@,
                *rules,
                search,
                windows,
            )
            &&& group_models(r.video_series@) == shown_groups(
                files@,
                "video"@,
                *rules,
                search,
                windows,
            )
        }),
{
    let ghost windows = path_rules.windows();
    let search = search_text(query);
    let ghost text = if search is Some {
        search->0@
    } else {
        Seq::empty()
    };
    let mut music_directories = DirectoryTable::new();
    let mut video_directories = DirectoryTable::new();
    let mut music: Vec<Placement> = Vec::new();
    let mut videos: Vec<Placement> = Vec::new();
    let mut matched_directories = StringHashSet::new();
    let mut matched_groups = StringHashSet::new();
    let mut i: usize = 0;
    proof {
        reveal_strlit("music");
        reveal_strlit("video");
        assert("music"@[0] != "video"@[0]);
        reveal(Seq::filter);
        assert(of_kind(files@.take(0), "music"@) =~= Seq::empty());
        assert(of_kind(files@.take(0), "video"@) =~= Seq::empty());
        assert(directory_keys(Seq::empty(), windows) =~= Seq::empty());
        assert(directories_of(Seq::empty(), windows) =~= Seq::empty());
        assert(placement_models(music@) =~= Seq::empty());
        assert(placement_models(videos@) =~= Seq::empty());
        assert(placements_of(Seq::empty(), *rules, windows) =~= Seq::empty());
        assert(matched_directories@ =~= found_directory_keys(files@.take(0), text, windows));
        assert(matched_groups@ =~= found_group_keys(files@.take(0), *rules, text, windows));
    }
    while i < files.len()
        invariant
            i <= files@.len(),
            "music"@ != "video"@,
            windows == path_rules.windows(),
            search matches Some(s) ==> s@ == text,
            music_directories.wf(),
            video_directories.wf(),
            music_directories.files() <= i,
            video_directories.files() <= i,
            music_directories@ == directories_of(
                of_kind(files@.take(i as int), "music"@),
                windows,
            ),
            video_directories@ == directories_of(
                of_kind(files@.take(i as int), "video"@),
                windows,
            ),
            placement_models(music@) == placements_of(
                of_kind(files@.take(i as int), "music"@),
                *rules,
                windows,
            ),
            placement_models(videos@) == placements_of(
                of_kind(files@.take(i as int), "video"@),
                *rules,
                windows,
            ),
            search is Some ==> matched_directories@ == found_directory_keys(
                files@.take(i as int),
                text,
                windows,
            ),
            search is Some ==> matched_groups@ == found_group_keys(
                files@.take(i as int),
                *rules,
                text,
                windows,
            ),
        decreases files@.len() - i,
    {
        let file = &files[i];
        let ghost seen = files@.take(i as int);
        proof {
            assert(files@.take(i + 1) =~= seen.push(*file));
            lemma_filter_push(seen, *file, kind_is("music"@));
            lemma_filter_push(seen, *file, kind_is("video"@));
        }
        let is_music = same_text(file.media_kind.as_str(), "music");
        let is_video = same_text(file.media_kind.as_str(), "video");
        if is_music || is_video {
            let directory_key = if is_music {
                proof {
                    lemma_directories_push(of_kind(seen, "music"@), *file, windows);
                }
                add_file_to_directory(&mut music_directories, file, path_rules)
            } else {
                proof {
                    lemma_directories_push(of_kind(seen, "video"@), *file, windows);
                }
                add_file_to_directory(&mut video_directories, file, path_rules)
            };
            let placement = place_file(file, rules, path_rules);
            let ghost placed = placement.model();
            let found = match &search {
                Some(text) => file_matches(file, text.as_str()),
                None => false,
            };
            let ghost directories_before = matched_directories@;
            let ghost groups_before = matched_groups@;
            if found {
                matched_directories.insert(
                    media_directory_match_key(file.media_kind.as_str(), directory_key.as_str()),
                );
                matched_groups.insert(placement.group.key.clone());
                if let Some(child) = &placement.child {
                    matched_groups.insert(child.key.clone());
                }
            }
            proof {
                if search is Some {
                    lemma_found_keys_push(seen, *file, *rules, text, windows);
                    assert(matched_directories@ =~= found_directory_keys(
                        seen.push(*file),
                        text,
                        windows,
                    ));
                    assert(matched_groups@ =~= found_group_keys(
                        seen.push(*file),
                        *rules,
                        text,
                        windows,
                    ));
                }
            }
            if is_music {
                let ghost before = music@;
                music.push(placement);
                proof {
                    assert(placement_models(music@) =~= placement_models(before).push(placed));
                    let held = of_kind(seen, "music"@);
                    assert(placements_of(held.push(*file), *rules, windows) =~= placements_of(
                        held,
                        *rules,
                        windows,
                    ).push(placed));
                }
            } else {
                let ghost before = videos@;
                videos.push(placement);
                proof {
                    assert(placement_models(videos@) =~= placement_models(before).push(placed));
                    let held = of_kind(seen, "video"@);
                    assert(placements_of(held.push(*file), *rules, windows) =~= placements_of(
                        held,
                        *rules,
                        windows,
                    ).push(placed));
                }
            }
        } else {
            proof {
                if search is Some {
                    lemma_found_keys_push(seen, *file, *rules, text, windows);
                    assert(matched_directories@ =~= found_directory_keys(
                        seen.push(*file),
                        text,
                        windows,
                    ));
                    assert(matched_groups@ =~= found_group_keys(
                        seen.push(*file),
                        *rules,
                        text,
                        windows,
                    ));
                }
            }
        }
        i += 1;
    }
    proof {
        assert(files@.take(files@.len() as int) =~= files@);
    }
    LibraryData {
        music_directories: show_directories(
            music_directories.into_list(),
            "music",
            &search,
            &matched_directories,
            Ghost(files@),
            Ghost(windows),
        ),
        video_directories: show_directories(
            video_directories.into_list(),
            "video",
            &search,
            &matched_directories,
            Ghost(files@),
            Ghost(windows),
        ),
        music_artists: show_groups(music, &search, &matched_groups),
        video_series: show_groups(videos, &search, &matched_groups),
    }
}

proof fn lemma_found_keys_push(
    files: Seq<ResourceVariant>,
    file: ResourceVariant,
    rules: LibraryRules,
    search: Seq<char>,
    windows: bool,
)
    ensures
        forall|key: Seq<char>| #[trigger]
            found_directory_keys(files.push(file), search, windows).contains(key) <==> (
            found_directory_keys(files, search, windows).contains(key) || (is_shown(file)
                && file_found(file, search) && key == match_key(
                file.media_kind@,
                directory_key(file, windows),
            ))),
        forall|key: Seq<char>| #[trigger]
            found_group_keys(files.push(file), rules, search, windows).contains(key) <==> (
            found_group_keys(files, rules, search, windows).contains(key) || (is_shown(file)
                && file_found(file, search) && is_placed_in(
                placement_of(file, rules, windows),
                key,
            ))),
{
    let all = files.push(file);
    assert(all[files.len() as int] == file);
    assert(forall|i: int| 0 <= i < files.len() ==> #[trigger] all[i] == files[i]);
    assert(forall|i: int| 0 <= i < files.len() ==> #[trigger] files[i] == all[i]);
}

// ---------------------------------------------------------------------------
// Laws
// ---------------------------------------------------------------------------

/// The number of files in directories.
pub open spec fn files_counted(directories: Seq<DirectoryModel>) -> nat
    decreases directories.len(),
{
    if directories.len() == 0 {
        0
    } else {
        files_counted(directories.drop_last()) + directories.last().file_count
    }
}

proof fn lemma_count_update(directories: Seq<DirectoryModel>, at: int, file: ResourceVariant)
    requires
        0 <= at < directories.len(),
    ensures
        files_counted(directories.update(at, counted(directories[at], file))) == files_counted(
            directories,
        ) + 1,
    decreases directories.len(),
{
    let after = directories.update(at, counted(directories[at], file));
    if at == directories.len() - 1 {
        assert(after.drop_last() =~= directories.drop_last());
    } else {
        lemma_count_update(directories.drop_last(), at, file);
        assert(after.drop_last() =~= directories.drop_last().update(
            at,
            counted(directories.drop_last()[at], file),
        ));
    }
}

/// Every file is counted in exactly one directory: the counts of the
/// directories add up to the number of files.
pub proof fn every_file_is_in_one_directory(files: Seq<ResourceVariant>, windows: bool)
    ensures
        files_counted(directories_of(files, windows)) == files.len(),
    decreases files.len(),
{
    if files.len() == 0 {
        assert(directory_keys(files, windows) =~= Seq::empty());
        assert(directories_of(files, windows) =~= Seq::empty());
    } else {
        let before = files.drop_last();
        let directories = directories_of(before, windows);
        let file = files.last();
        every_file_is_in_one_directory(before, windows);
        lemma_directories_push(before, file, windows);
        assert(files =~= before.push(file));
        let key = directory_key(file, windows);
        let keys = keys_of_directories(directories);
        if keys.contains(key) {
            let at = keys.index_of(key);
            lemma_count_update(directories, at, file);
        } else {
            let added = counted(empty_directory(file, windows), file);
            assert(directories.push(added).drop_last() =~= directories);
        }
    }
}

/// What is shown stands in order: directories by their relative paths, groups
/// by their names, at every level.
pub proof fn library_is_in_order(
    files: Seq<ResourceVariant>,
    kind: Seq<char>,
    rules: LibraryRules,
    search: Option<Seq<char>>,
    windows: bool,
)
    ensures
        ascending(
            shown_directories(files, kind, search, windows).map_values(
                |d: DirectoryModel| directory_sort_key(d),
            ),
        ),
        in_order(shown_groups(files, kind, rules, search, windows)),
{
    sorting_orders_and_keeps(
        found_directories(of_kind(files, kind), search, windows),
        |d: DirectoryModel| directory_sort_key(d),
    );
    let groups = groups_of(placements_of(of_kind(files, kind), rules, windows));
    sorting_groups_orders_every_level(
        match search {
            Some(text) => found_groups(groups, text, found_group_keys(files, rules, text, windows)),
            None => groups,
        },
    );
}

/// Without a search every directory is shown, once.
pub proof fn all_directories_are_shown(
    files: Seq<ResourceVariant>,
    kind: Seq<char>,
    windows: bool,
)
    ensures
        shown_directories(files, kind, None, windows).to_multiset() == directories_of(
            of_kind(files, kind),
            windows,
        ).to_multiset(),
        shown_directories(files, kind, None, windows).len() == distinct(
            directory_keys(of_kind(files, kind), windows),
        ).len(),
{
    sorting_orders_and_keeps(
        directories_of(of_kind(files, kind), windows),
        |d: DirectoryModel| directory_sort_key(d),
    );
}

/// A search keeps music and videos apart: the directories that are shown of a
/// kind depend on the files of this kind alone.
pub proof fn search_keeps_kinds_apart(
    files: Seq<ResourceVariant>,
    others: Seq<ResourceVariant>,
    kind: Seq<char>,
    search: Option<Seq<char>>,
    windows: bool,
)
    requires
        of_kind(files, kind) == of_kind(others, kind),
    ensures
        shown_directories(files, kind, search, windows) == shown_directories(
            others,
            kind,
            search,
            windows,
        ),
{
}

} // verus!
