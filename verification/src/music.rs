//! Artist, album and title of a piece of music.

use vstd::prelude::*;
use vstd::string::*;

use crate::directories::{
    album_among, artist_among, infer_album_from_directory, infer_artist_from_directory, parent_names,
};
use crate::paths::{file_stem, stem, PathRules};
use crate::pattern::{find, first_match, group, opt_captures, Captures, Found, ARTIST_TITLE};
use crate::probe::MediaProbe;
use crate::text::{chars_of, opt_text, same_text};
use crate::titles::{
    clean_group_name, clean_title, cleaned_title, group_name, is_generic_music,
    is_generic_music_directory, normalize_key, title_key, UNKNOWN_ARTIST, UNNAMED,
};
use crate::unicode::alphabetic;

verus! {

/// A key holds a letter.
pub open spec fn has_letter(key: Seq<char>) -> bool {
    exists|i: int| 0 <= i < key.len() && alphabetic(#[trigger] key[i])
}

/// A name in front of a dash can be that of an artist: it has a letter and is
/// not a mere sort of directory.
pub open spec fn is_plausible_artist(value: Seq<char>) -> bool {
    has_letter(title_key(value)) && !is_generic_music(value)
}

/// Whether a key holds a letter.
pub fn key_has_letter(key: &str) -> (r: bool)
    ensures
        r == has_letter(key@),
{
    let chars = chars_of(key);
    let mut i: usize = 0;
    while i < chars.len()
        invariant
            i <= chars@.len(),
            chars@ == key@,
            forall|j: int| 0 <= j < i ==> !alphabetic(#[trigger] chars@[j]),
        decreases chars@.len() - i,
    {
        if chars[i].is_alphabetic() {
            return true;
        }
        i += 1;
    }
    false
}

/// Whether a name in front of a dash can be that of an artist.
pub fn is_plausible_filename_artist(value: &str) -> (r: bool)
    ensures
        r == is_plausible_artist(value@),
{
    let key = normalize_key(value);
    key_has_letter(key.as_str()) && !is_generic_music_directory(value)
}

/// The title that the stem of a file name states.
pub open spec fn stem_title(stem: Seq<char>) -> Option<Seq<char>> {
    if cleaned_title(stem) == UNNAMED@ {
        None
    } else {
        Some(cleaned_title(stem))
    }
}

/// The title that a file name states.
pub fn infer_music_title_from_filename(file_name: &str, rules: PathRules) -> (r: Option<String>)
    ensures
        opt_text(r) == stem_title(stem(file_name@, rules.windows())),
{
    let stem = file_stem(file_name, rules);
    let title = clean_title(stem.as_str());
    if same_text(title.as_str(), UNNAMED) {
        None
    } else {
        Some(title)
    }
}

pub open spec fn opt_pair(value: Option<(String, String)>) -> Option<(Seq<char>, Seq<char>)> {
    match value {
        Some((a, b)) => Some((a@, b@)),
        None => None,
    }
}

pub open spec fn clean_group(found: Found, index: int) -> Option<Seq<char>> {
    match group(found, index) {
        Some(text) => group_name(text),
        None => None,
    }
}

/// Artist and title on the two sides of a dash.
pub open spec fn artist_title_of(found: Option<Found>) -> Option<(Seq<char>, Seq<char>)> {
    match found {
        Some(f) => match (clean_group(f, 1), clean_group(f, 2)) {
            (Some(artist), Some(title)) => if is_plausible_artist(artist) {
                Some((artist, title))
            } else {
                None
            },
            _ => None,
        },
        None => None,
    }
}

/// Artist and title on the two sides of a dash.
pub fn artist_title_from_match(found: &Option<Captures>) -> (r: Option<(String, String)>)
    ensures
        opt_pair(r) == artist_title_of(opt_captures(*found)),
{
    match found {
        Some(caps) => {
            let artist = match caps.group(1) {
                Some(text) => clean_group_name(text.as_str()),
                None => None,
            };
            let title = match caps.group(2) {
                Some(text) => clean_group_name(text.as_str()),
                None => None,
            };
            match (artist, title) {
                (Some(artist), Some(title)) => {
                    if is_plausible_filename_artist(artist.as_str()) {
                        Some((artist, title))
                    } else {
                        None
                    }
                },
                _ => None,
            }
        },
        None => None,
    }
}

/// Artist and title that a file name of the form `artist - title` states.
pub fn infer_artist_title_from_filename(file_name: &str, rules: PathRules) -> (r: Option<
    (String, String),
>)
    ensures
        opt_pair(r) == artist_title_of(
            first_match(ARTIST_TITLE@, stem(file_name@, rules.windows())),
        ),
{
    let stem = file_stem(file_name, rules);
    let found = find(ARTIST_TITLE, stem.as_str());
    artist_title_from_match(&found)
}

/// What is known of a piece of music: artist, album, title, and where the
/// artist was taken from.
pub struct MusicModel {
    pub artist: Seq<char>,
    pub album: Option<Seq<char>>,
    pub title: Option<Seq<char>>,
    pub artist_source: Seq<char>,
}

/// Artist, album and title, from the tags before the file name before the
/// directories.
pub open spec fn music_of(
    tagged: (Option<Seq<char>>, Option<Seq<char>>, Option<Seq<char>>),
    named: Option<(Seq<char>, Seq<char>)>,
    name_title: Option<Seq<char>>,
    directory_artist: Option<Seq<char>>,
    directory_album: Option<Seq<char>>,
) -> MusicModel {
    let (tag_artist, tag_album, tag_title) = tagged;
    let album = if tag_album is Some {
        tag_album
    } else {
        directory_album
    };
    let title = if tag_title is Some {
        tag_title
    } else if named is Some {
        Some((named->0).1)
    } else {
        name_title
    };
    let (artist, artist_source) = if tag_artist is Some && tag_artist->0.len() > 0 {
        (tag_artist->0, "tag"@)
    } else if named is Some {
        ((named->0).0, "filename"@)
    } else if directory_artist is Some {
        (directory_artist->0, "directory"@)
    } else {
        (UNKNOWN_ARTIST@, "unknown"@)
    };
    MusicModel { artist, album, title, artist_source }
}

/// What is known of a piece of music.
pub open spec fn music_metadata(
    probe: MediaProbe,
    path: Seq<char>,
    root: Seq<char>,
    file_name: Seq<char>,
    windows: bool,
) -> MusicModel {
    let names = parent_names(path, root, windows);
    music_of(
        (opt_text(probe.music_artist), opt_text(probe.music_album), opt_text(probe.music_title)),
        artist_title_of(first_match(ARTIST_TITLE@, stem(file_name, windows))),
        stem_title(stem(file_name, windows)),
        artist_among(names),
        album_among(names),
    )
}

/// Artist, album, title and the source of the artist as they are handed out.
pub open spec fn music_result(
    r: (Option<String>, Option<String>, Option<String>, Option<String>),
    model: MusicModel,
) -> bool {
    &&& opt_text(r.0) == Some(model.artist)
    &&& opt_text(r.1) == model.album
    &&& opt_text(r.2) == model.title
    &&& opt_text(r.3) == Some(model.artist_source)
}

/// Artist, album and title, from the tags before the file name before the
/// directories.
pub fn choose_music_metadata(
    probe: &MediaProbe,
    named: Option<(String, String)>,
    name_title: Option<String>,
    directory_artist: Option<String>,
    directory_album: Option<String>,
) -> (r: (Option<String>, Option<String>, Option<String>, Option<String>))
    ensures
        music_result(
            r,
            music_of(
                (
                    opt_text(probe.music_artist),
                    opt_text(probe.music_album),
                    opt_text(probe.music_title),
                ),
                opt_pair(named),
                opt_text(name_title),
                opt_text(directory_artist),
                opt_text(directory_album),
            ),
        ),
{
    let album = match &probe.music_album {
        Some(album) => Some(album.clone()),
        None => directory_album,
    };
    let title = match &probe.music_title {
        Some(title) => Some(title.clone()),
        None => match &named {
            Some(pair) => Some(pair.1.clone()),
            None => name_title,
        },
    };
    if let Some(artist) = &probe.music_artist {
        if !artist.as_str().is_empty() {
            return (Some(artist.clone()), album, title, Some("tag".to_string()));
        }
    }
    if let Some((artist, _)) = named {
        return (Some(artist), album, title, Some("filename".to_string()));
    }
    if let Some(artist) = directory_artist {
        return (Some(artist), album, title, Some("directory".to_string()));
    }
    (Some(UNKNOWN_ARTIST.to_string()), album, title, Some("unknown".to_string()))
}

/// Artist, album and title of a file, and where the artist was taken from.
pub fn infer_music_metadata(
    probe: &MediaProbe,
    path: &str,
    root_path: &str,
    file_name: &str,
    rules: PathRules,
) -> (r: (Option<String>, Option<String>, Option<String>, Option<String>))
    ensures
        music_result(
            r,
            music_metadata(*probe, path@, root_path@, file_name@, rules.windows()),
        ),
{
    let named = infer_artist_title_from_filename(file_name, rules);
    let name_title = infer_music_title_from_filename(file_name, rules);
    let directory_artist = infer_artist_from_directory(path, root_path, rules);
    let directory_album = infer_album_from_directory(path, root_path, rules);
    choose_music_metadata(probe, named, name_title, directory_artist, directory_album)
}

// ---------------------------------------------------------------------------
// Laws
// ---------------------------------------------------------------------------

/// The artist of a file is that of its tags; else that of a file name that
/// states artist and title; else that of its directories; else the unknown
/// artist. The source says which of these it is.
pub proof fn artist_comes_by_priority(
    probe: MediaProbe,
    path: Seq<char>,
    root: Seq<char>,
    file_name: Seq<char>,
    windows: bool,
)
    ensures
        ({
            let music = music_metadata(probe, path, root, file_name, windows);
            let tagged = opt_text(probe.music_artist);
            let named = artist_title_of(first_match(ARTIST_TITLE@, stem(file_name, windows)));
            let placed = artist_among(parent_names(path, root, windows));
            if tagged is Some && tagged->0.len() > 0 {
                music.artist == tagged->0 && music.artist_source == "tag"@
            } else if named is Some {
                music.artist == (named->0).0 && music.artist_source == "filename"@
            } else if placed is Some {
                music.artist == placed->0 && music.artist_source == "directory"@
            } else {
                music.artist == UNKNOWN_ARTIST@ && music.artist_source == "unknown"@
            }
        }),
{
}

} // verus!
