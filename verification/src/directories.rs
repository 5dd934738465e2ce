//! What the directories around a file say: series, families, artists, albums.

use vstd::prelude::*;
use vstd::string::*;

use crate::episodes::{
    bracketed_from, is_confident, is_confident_filename_title, parse_bracketed_anime_name,
    strip_release_group_prefix, without_group, ParsedName,
};
use crate::paths::{path_below, path_components, path_file_name, path_parent, stem, PathRules};
use crate::pattern::{
    first_match, first_replaced, replace_first, BRACKETED_EPISODE, DIRECTORY_ORDER, INSTALLMENT_SUFFIX,
};
use crate::text::{
    begins_with, blank, is_blank, opt_text, same_text, swap_char, swapped, texts,
};
use crate::titles::{
    clean_group_name, group_name, infer_series_family_title, is_detected_title,
    is_generated, is_generated_directory_title, is_generic_music, is_generic_music_directory,
    is_generic_video, is_generic_video_directory, is_title, key_family, normalize_key,
    normalize_series_title, series_name, title_key, UNKNOWN_SERIES, UNNAMED,
};

verus! {

// ---------------------------------------------------------------------------
// Directory names
// ---------------------------------------------------------------------------

/// The clean names among the parts of a path, in order.
pub open spec fn clean_names(parts: Seq<Seq<char>>) -> Seq<Seq<char>>
    decreases parts.len(),
{
    if parts.len() == 0 {
        Seq::empty()
    } else {
        match group_name(parts.last()) {
            Some(name) => clean_names(parts.drop_last()).push(name),
            None => clean_names(parts.drop_last()),
        }
    }
}

/// The names of the directories of a file, from the scanned root downwards;
/// from the top where the file does not lie below the root.
pub open spec fn parent_names(path: Seq<char>, root: Seq<char>, windows: bool) -> Seq<Seq<char>> {
    match path_parent(path, windows) {
        Some(parent) => clean_names(
            path_components(
                match path_below(parent, root, windows) {
                    Some(relative) => relative,
                    None => parent,
                },
                windows,
            ),
        ),
        None => Seq::empty(),
    }
}

/// The clean names among the parts of a path.
pub fn clean_components(parts: &Vec<String>) -> (r: Vec<String>)
    ensures
        texts(r@) == clean_names(texts(parts@)),
{
    let ghost all = texts(parts@);
    let mut names: Vec<String> = Vec::new();
    let mut i: usize = 0;
    while i < parts.len()
        invariant
            i <= parts@.len(),
            all == texts(parts@),
            texts(names@) =~= clean_names(all.take(i as int)),
        decreases parts@.len() - i,
    {
        proof {
            assert(all.take(i + 1).drop_last() =~= all.take(i as int));
            assert(all[i as int] == parts@[i as int]@);
        }
        if let Some(name) = clean_group_name(parts[i].as_str()) {
            names.push(name);
        }
        i += 1;
    }
    proof {
        assert(all.take(parts@.len() as int) =~= all);
    }
    names
}

/// The names of the directories of a file, from the scanned root downwards.
pub fn relative_parent_components(path: &str, root_path: &str, rules: PathRules) -> (r: Vec<String>)
    ensures
        texts(r@) == parent_names(path@, root_path@, rules.windows()),
{
    match rules.parent(path) {
        Some(parent) => {
            let relative = match rules.below(parent.as_str(), root_path) {
                Some(relative) => relative,
                None => parent,
            };
            clean_components(&rules.components(relative.as_str()))
        },
        None => {
            let none: Vec<String> = Vec::new();
            proof {
                assert(texts(none@) =~= Seq::<Seq<char>>::empty());
            }
            none
        },
    }
}

// ---------------------------------------------------------------------------
// Artists and albums
// ---------------------------------------------------------------------------

/// The directory names that say something about the music below them.
pub open spec fn meaningful(names: Seq<Seq<char>>) -> Seq<Seq<char>> {
    names.filter(|name: Seq<char>| !is_generic_music(name))
}

/// The artist that directory names tell: the last but one that says something,
/// or the only one.
pub open spec fn artist_among(names: Seq<Seq<char>>) -> Option<Seq<char>> {
    let telling = meaningful(names);
    if telling.len() == 0 {
        None
    } else {
        let candidate = if telling.len() == 1 {
            telling[0]
        } else {
            telling[telling.len() - 2]
        };
        match group_name(candidate) {
            Some(name) => if is_generic_music(name) {
                None
            } else {
                Some(name)
            },
            None => None,
        }
    }
}

/// The album that directory names tell: the last that says something, where
/// there is another before it.
pub open spec fn album_among(names: Seq<Seq<char>>) -> Option<Seq<char>> {
    let telling = meaningful(names);
    if telling.len() < 2 {
        None
    } else {
        group_name(telling.last())
    }
}

fn telling_names(names: &Vec<String>) -> (r: Vec<String>)
    ensures
        texts(r@) == meaningful(texts(names@)),
{
    let ghost all = texts(names@);
    let ghost keep = |name: Seq<char>| !is_generic_music(name);
    let mut telling: Vec<String> = Vec::new();
    let mut i: usize = 0;
    proof {
        reveal(Seq::filter);
    }
    while i < names.len()
        invariant
            i <= names@.len(),
            all == texts(names@),
            keep == (|name: Seq<char>| !is_generic_music(name)),
            texts(telling@) =~= all.take(i as int).filter(keep),
        decreases names@.len() - i,
    {
        proof {
            reveal(Seq::filter);
            assert(all.take(i + 1).drop_last() =~= all.take(i as int));
            assert(all.take(i + 1).last() == names@[i as int]@);
        }
        if !is_generic_music_directory(names[i].as_str()) {
            telling.push(names[i].clone());
        }
        i += 1;
    }
    proof {
        assert(all.take(names@.len() as int) =~= all);
    }
    telling
}

/// The artist that directory names tell.
pub fn artist_from_names(names: &Vec<String>) -> (r: Option<String>)
    ensures
        opt_text(r) == artist_among(texts(names@)),
{
    let telling = telling_names(names);
    proof {
        assert(texts(telling@).len() == telling@.len());
    }
    if telling.len() == 0 {
        return None;
    }
    let at: usize = if telling.len() == 1 {
        0
    } else {
        telling.len() - 2
    };
    proof {
        assert(texts(telling@)[at as int] == telling@[at as int]@);
    }
    match clean_group_name(telling[at].as_str()) {
        Some(name) => {
            if is_generic_music_directory(name.as_str()) {
                None
            } else {
                Some(name)
            }
        },
        None => None,
    }
}

/// The album that directory names tell.
pub fn album_from_names(names: &Vec<String>) -> (r: Option<String>)
    ensures
        opt_text(r) == album_among(texts(names@)),
{
    let telling = telling_names(names);
    proof {
        assert(texts(telling@).len() == telling@.len());
    }
    if telling.len() < 2 {
        return None;
    }
    let at: usize = telling.len() - 1;
    proof {
        assert(texts(telling@)[at as int] == telling@[at as int]@);
    }
    clean_group_name(telling[at].as_str())
}

/// The artist that the directories of a file tell.
pub fn infer_artist_from_directory(path: &str, root_path: &str, rules: PathRules) -> (r: Option<
    String,
>)
    ensures
        opt_text(r) == artist_among(parent_names(path@, root_path@, rules.windows())),
{
    let names = relative_parent_components(path, root_path, rules);
    artist_from_names(&names)
}

/// The album that the directories of a file tell.
pub fn infer_album_from_directory(path: &str, root_path: &str, rules: PathRules) -> (r: Option<
    String,
>)
    ensures
        opt_text(r) == album_among(parent_names(path@, root_path@, rules.windows())),
{
    let names = relative_parent_components(path, root_path, rules);
    album_from_names(&names)
}

// ---------------------------------------------------------------------------
// Series
// ---------------------------------------------------------------------------

/// The title in a directory name, cleaned.
pub open spec fn plain_directory_title(value: Seq<char>) -> Option<Seq<char>> {
    let source = if is_blank(without_group(value)) {
        value
    } else {
        without_group(value)
    };
    let normalized = series_name(first_replaced(DIRECTORY_ORDER@, source, ""@));
    let cleaned = series_name(first_replaced(INSTALLMENT_SUFFIX@, normalized, ""@));
    if is_title(cleaned) {
        Some(cleaned)
    } else {
        None
    }
}

/// The title that a directory name states: that of the bracketed form, else
/// the name without release group, order number, tags and installment.
pub open spec fn directory_title(value: Seq<char>) -> Option<Seq<char>> {
    match bracketed_from(first_match(BRACKETED_EPISODE@, value), None, None) {
        Some(parsed) => if is_title(parsed.title_guess) {
            Some(series_name(parsed.title_guess))
        } else {
            plain_directory_title(value)
        },
        None => plain_directory_title(value),
    }
}

/// The series that a directory name states.
pub open spec fn series_candidate(value: Seq<char>) -> Option<Seq<char>> {
    match directory_title(value) {
        Some(title) => if is_generic_video(title) || is_generated(title) {
            None
        } else {
            Some(title)
        },
        None => None,
    }
}

/// The series that the last of the names that state one states.
pub open spec fn last_candidate(names: Seq<Seq<char>>) -> Option<Seq<char>>
    decreases names.len(),
{
    if names.len() == 0 {
        None
    } else {
        match series_candidate(names.last()) {
            Some(title) => Some(title),
            None => last_candidate(names.drop_last()),
        }
    }
}

/// The series that the nearest directory of a file states, else the scanned
/// root.
pub open spec fn directory_series(path: Seq<char>, root: Seq<char>, windows: bool) -> Option<
    Seq<char>,
> {
    match last_candidate(parent_names(path, root, windows)) {
        Some(title) => Some(title),
        None => match path_file_name(root, windows) {
            Some(name) => series_candidate(name),
            None => None,
        },
    }
}

fn clean_plain_directory(value: &str) -> (r: Option<String>)
    ensures
        opt_text(r) == plain_directory_title(value@),
{
    let stripped = strip_release_group_prefix(value);
    let no_order = if blank(stripped.as_str()) {
        replace_first(DIRECTORY_ORDER, value, "")
    } else {
        replace_first(DIRECTORY_ORDER, stripped.as_str(), "")
    };
    let normalized = normalize_series_title(no_order.as_str());
    // Release tags may stand behind the season, so they are cleaned away first.
    let without_installment = replace_first(INSTALLMENT_SUFFIX, normalized.as_str(), "");
    let cleaned = normalize_series_title(without_installment.as_str());
    if is_detected_title(cleaned.as_str()) {
        Some(cleaned)
    } else {
        None
    }
}

/// The title that a directory name states.
pub fn clean_directory_title(value: &str) -> (r: Option<String>)
    ensures
        opt_text(r) == directory_title(value@),
{
    if let Some(parsed) = parse_bracketed_anime_name(value, None, None) {
        if is_detected_title(parsed.title_guess.as_str()) {
            return Some(normalize_series_title(parsed.title_guess.as_str()));
        }
    }
    clean_plain_directory(value)
}

fn series_from_directory_name(value: &str) -> (r: Option<String>)
    ensures
        opt_text(r) == series_candidate(value@),
{
    match clean_directory_title(value) {
        Some(title) => {
            if is_generic_video_directory(title.as_str()) || is_generated_directory_title(
                title.as_str(),
            ) {
                None
            } else {
                Some(title)
            }
        },
        None => None,
    }
}

/// The series that the last of the names that state one states.
pub fn series_from_names(names: &Vec<String>) -> (r: Option<String>)
    ensures
        opt_text(r) == last_candidate(texts(names@)),
{
    let ghost all = texts(names@);
    let mut end: usize = names.len();
    proof {
        assert(all.take(names@.len() as int) =~= all);
    }
    while end > 0
        invariant
            end <= names@.len(),
            all == texts(names@),
            last_candidate(all) == last_candidate(all.take(end as int)),
        decreases end,
    {
        proof {
            assert(all.take(end as int).drop_last() =~= all.take(end - 1));
            assert(all.take(end as int).last() == names@[end - 1]@);
        }
        if let Some(title) = series_from_directory_name(names[end - 1].as_str()) {
            return Some(title);
        }
        end -= 1;
    }
    None
}

/// The series that the nearest directory of a file states, else the scanned
/// root.
pub fn infer_series_from_directory(path: &str, root_path: &str, rules: PathRules) -> (r: Option<
    String,
>)
    ensures
        opt_text(r) == directory_series(path@, root_path@, rules.windows()),
{
    let names = relative_parent_components(path, root_path, rules);
    if let Some(title) = series_from_names(&names) {
        return Some(title);
    }
    match rules.file_name(root_path) {
        Some(name) => series_from_directory_name(name.as_str()),
        None => None,
    }
}

/// The series of a video and where it was taken from: a confident title from
/// the file name, else the directories, else any title from the file name.
pub open spec fn video_series_of(
    confident: bool,
    title_guess: Seq<char>,
    from_directory: Option<Seq<char>>,
) -> (Seq<char>, Seq<char>) {
    if confident {
        (series_name(title_guess), "filename"@)
    } else {
        match from_directory {
            Some(series) => (series, "directory"@),
            None => if title_guess != UNNAMED@ {
                (series_name(title_guess), "filename"@)
            } else {
                (UNKNOWN_SERIES@, "unknown"@)
            },
        }
    }
}

/// The last part of a path; nothing where it has none.
pub open spec fn last_part(path: Seq<char>, windows: bool) -> Seq<char> {
    match path_file_name(path, windows) {
        Some(name) => name,
        None => Seq::empty(),
    }
}

pub open spec fn video_series(
    path: Seq<char>,
    root: Seq<char>,
    title_guess: Seq<char>,
    windows: bool,
) -> (Seq<char>, Seq<char>) {
    video_series_of(
        is_confident(stem(last_part(path, windows), windows), series_name(title_guess)),
        title_guess,
        directory_series(path, root, windows),
    )
}

/// The series of a video and where it was taken from.
pub fn choose_video_series(
    confident: bool,
    title_guess: &str,
    from_directory: Option<String>,
) -> (r: (Option<String>, Option<String>))
    ensures
        ({
            let (series, source) = video_series_of(
                confident,
                title_guess@,
                opt_text(from_directory),
            );
            opt_text(r.0) == Some(series) && opt_text(r.1) == Some(source)
        }),
{
    if confident {
        return (Some(normalize_series_title(title_guess)), Some("filename".to_string()));
    }
    if let Some(series) = from_directory {
        return (Some(series), Some("directory".to_string()));
    }
    if !same_text(title_guess, UNNAMED) {
        return (Some(normalize_series_title(title_guess)), Some("filename".to_string()));
    }
    (Some(UNKNOWN_SERIES.to_string()), Some("unknown".to_string()))
}

/// The series of a video and where it was taken from.
pub fn infer_video_series(path: &str, root_path: &str, parsed: &ParsedName, rules: PathRules) -> (r:
    (Option<String>, Option<String>))
    ensures
        ({
            let (series, source) = video_series(
                path@,
                root_path@,
                parsed@.title_guess,
                rules.windows(),
            );
            opt_text(r.0) == Some(series) && opt_text(r.1) == Some(source)
        }),
{
    let parsed_title = normalize_series_title(parsed.title_guess.as_str());
    let file_name = match rules.file_name(path) {
        Some(name) => name,
        None => String::new(),
    };
    let confident = is_confident_filename_title(file_name.as_str(), parsed_title.as_str(), rules);
    let from_directory = infer_series_from_directory(path, root_path, rules);
    choose_video_series(confident, parsed.title_guess.as_str(), from_directory)
}

// ---------------------------------------------------------------------------
// Families
// ---------------------------------------------------------------------------

/// The series that directory names state, in order.
pub open spec fn candidates_among(names: Seq<Seq<char>>) -> Seq<Seq<char>>
    decreases names.len(),
{
    if names.len() == 0 {
        Seq::empty()
    } else {
        match series_candidate(names.last()) {
            Some(title) => candidates_among(names.drop_last()).push(title),
            None => candidates_among(names.drop_last()),
        }
    }
}

/// The position of the last candidate with a key, or -1.
pub open spec fn last_with_key(candidates: Seq<Seq<char>>, key: Seq<char>) -> int
    decreases candidates.len(),
{
    if candidates.len() == 0 {
        -1
    } else if title_key(candidates.last()) == key {
        candidates.len() - 1
    } else {
        last_with_key(candidates.drop_last(), key)
    }
}

/// The family of a series: the directory right above the one of the series,
/// where the key of the series continues its key.
pub open spec fn family_among(candidates: Seq<Seq<char>>, series_key: Seq<char>) -> Option<
    Seq<char>,
> {
    let at = last_with_key(candidates, series_key);
    if at < 1 {
        None
    } else {
        let parent = candidates[at - 1];
        if title_key(parent).push('-').is_prefix_of(series_key) {
            Some(parent)
        } else {
            None
        }
    }
}

/// The family of a series, by its title or by the directories of a file.
pub open spec fn series_family(
    path: Seq<char>,
    root: Seq<char>,
    series: Seq<char>,
    windows: bool,
) -> Option<Seq<char>> {
    match key_family(title_key(series)) {
        Some(family) => Some(family),
        None => family_among(
            candidates_among(parent_names(path, root, windows)),
            title_key(series),
        ),
    }
}

fn series_among_names(names: &Vec<String>) -> (r: Vec<String>)
    ensures
        texts(r@) == candidates_among(texts(names@)),
{
    let ghost all = texts(names@);
    let mut found: Vec<String> = Vec::new();
    let mut i: usize = 0;
    while i < names.len()
        invariant
            i <= names@.len(),
            all == texts(names@),
            texts(found@) =~= candidates_among(all.take(i as int)),
        decreases names@.len() - i,
    {
        proof {
            assert(all.take(i + 1).drop_last() =~= all.take(i as int));
            assert(all[i as int] == names@[i as int]@);
        }
        if let Some(title) = series_from_directory_name(names[i].as_str()) {
            found.push(title);
        }
        i += 1;
    }
    proof {
        assert(all.take(names@.len() as int) =~= all);
    }
    found
}

/// The family of the series with this key among the series that directories
/// state.
pub fn family_from_candidates(candidates: &Vec<String>, series_key: &str) -> (r: Option<String>)
    ensures
        opt_text(r) == family_among(texts(candidates@), series_key@),
{
    let ghost all = texts(candidates@);
    let mut end: usize = candidates.len();
    proof {
        assert(all.take(candidates@.len() as int) =~= all);
    }
    while end > 0
        invariant
            end <= candidates@.len(),
            all == texts(candidates@),
            last_with_key(all, series_key@) == last_with_key(all.take(end as int), series_key@),
        decreases end,
    {
        proof {
            assert(all.take(end as int).drop_last() =~= all.take(end - 1));
            assert(all.take(end as int).last() == candidates@[end - 1]@);
        }
        let key = normalize_key(candidates[end - 1].as_str());
        if same_text(key.as_str(), series_key) {
            if end < 2 {
                return None;
            }
            proof {
                assert(all[end - 2] == candidates@[end - 2]@);
            }
            let mut opening = normalize_key(candidates[end - 2].as_str());
            opening.push('-');
            if begins_with(series_key, opening.as_str()) {
                return Some(candidates[end - 2].clone());
            }
            return None;
        }
        end -= 1;
    }
    None
}

/// The family of a series, by its title or by the directories of a file.
pub fn infer_series_family(path: &str, root_path: &str, series: &str, rules: PathRules) -> (r:
    Option<String>)
    ensures
        opt_text(r) == series_family(path@, root_path@, series@, rules.windows()),
{
    if let Some(family) = infer_series_family_title(series) {
        return Some(family);
    }
    let series_key = normalize_key(series);
    let names = relative_parent_components(path, root_path, rules);
    if names.len() < 2 {
        proof {
            lemma_single_name_has_no_family(texts(names@), series_key@);
        }
        return None;
    }
    let candidates = series_among_names(&names);
    family_from_candidates(&candidates, series_key.as_str())
}

proof fn lemma_candidates_are_names(names: Seq<Seq<char>>)
    ensures
        candidates_among(names).len() <= names.len(),
    decreases names.len(),
{
    if names.len() > 0 {
        lemma_candidates_are_names(names.drop_last());
    }
}

proof fn lemma_last_is_inside(candidates: Seq<Seq<char>>, key: Seq<char>)
    ensures
        last_with_key(candidates, key) < candidates.len(),
    decreases candidates.len(),
{
    if candidates.len() > 0 {
        lemma_last_is_inside(candidates.drop_last(), key);
    }
}

/// A family needs two directories: one for itself and one for the series.
proof fn lemma_single_name_has_no_family(names: Seq<Seq<char>>, key: Seq<char>)
    requires
        names.len() < 2,
    ensures
        family_among(candidates_among(names), key) is None,
{
    lemma_candidates_are_names(names);
    lemma_last_is_inside(candidates_among(names), key);
}

// ---------------------------------------------------------------------------
// Shown directory
// ---------------------------------------------------------------------------

/// The name of a directory without a last part.
pub const ROOT_DIRECTORY: &'static str = "根目录";

/// The name that a directory is shown under, given its path below the scanned
/// root and its last part.
pub open spec fn shown_directory(below: Option<Seq<char>>, name: Option<Seq<char>>) -> Seq<char> {
    let fallback = match name {
        Some(text) => text,
        None => ROOT_DIRECTORY@,
    };
    match below {
        Some(relative) => if is_blank(swapped(relative, '\\', '/')) {
            fallback
        } else {
            swapped(relative, '\\', '/')
        },
        None => fallback,
    }
}

/// The name that a directory is shown under.
pub fn show_directory(below: Option<String>, name: Option<String>) -> (r: String)
    ensures
        r@ == shown_directory(opt_text(below), opt_text(name)),
{
    if let Some(relative) = below {
        let value = swap_char(relative.as_str(), '\\', '/');
        if !blank(value.as_str()) {
            return value;
        }
    }
    match name {
        Some(text) => text,
        None => ROOT_DIRECTORY.to_string(),
    }
}

/// The path of a directory below the scanned root, else its name.
pub fn relative_directory_path(root_path: &str, dir_path: &str, rules: PathRules) -> (r: String)
    ensures
        r@ == shown_directory(
            path_below(dir_path@, root_path@, rules.windows()),
            path_file_name(dir_path@, rules.windows()),
        ),
{
    show_directory(rules.below(dir_path, root_path), rules.file_name(dir_path))
}

// ---------------------------------------------------------------------------
// Laws
// ---------------------------------------------------------------------------

/// The series of a file is that of a file name that tells it with confidence;
/// else that of the nearest directory that tells one, or of the scanned root;
/// else the title in the file name; else the unknown series. The source says
/// whether it is the file name or the directory.
pub proof fn series_comes_by_priority(
    path: Seq<char>,
    root: Seq<char>,
    title_guess: Seq<char>,
    windows: bool,
)
    ensures
        ({
            let (series, source) = video_series(path, root, title_guess, windows);
            let name = stem(last_part(path, windows), windows);
            if is_confident(name, series_name(title_guess)) {
                series == series_name(title_guess) && source == "filename"@
            } else if last_candidate(parent_names(path, root, windows)) is Some {
                Some(series) == last_candidate(parent_names(path, root, windows)) && source
                    == "directory"@
            } else if directory_series(path, root, windows) is Some {
                path_file_name(root, windows) is Some && Some(series) == series_candidate(
                    path_file_name(root, windows)->0,
                ) && source == "directory"@
            } else if title_guess != UNNAMED@ {
                series == series_name(title_guess) && source == "filename"@
            } else {
                series == UNKNOWN_SERIES@ && source == "unknown"@
            }
        }),
{
}

/// Of the directories above a file, the nearest that tells a series counts.
pub proof fn nearest_directory_counts(names: Seq<Seq<char>>, i: int)
    requires
        0 <= i < names.len(),
        series_candidate(names[i]) is Some,
        forall|j: int| i < j < names.len() ==> series_candidate(#[trigger] names[j]) is None,
    ensures
        last_candidate(names) == series_candidate(names[i]),
    decreases names.len(),
{
    if i < names.len() - 1 {
        assert(series_candidate(names[names.len() - 1]) is None);
        nearest_directory_counts(names.drop_last(), i);
    }
}

/// A directory with a generic name or a date for a name tells no series.
pub proof fn generic_directories_tell_no_series(name: Seq<char>)
    ensures
        series_candidate(name) matches Some(title) ==> !is_generic_video(title) && !is_generated(
            title,
        ),
{
}

} // verus!
