//! What names tell: laws on file names, directories, series and artists. They
//! speak of the outside matches by the text of their patterns and of lists by
//! their members.

use vstd::prelude::*;
use vstd::string::*;

use crate::directories::{
    album_among, artist_among, candidates_among, clean_names, directory_title, family_among,
    last_candidate, meaningful, parent_names, series_candidate, series_family, video_series,
    video_series_of,
};
use crate::episodes::{
    anime_episode, anime_episode_from, is_confident, leading_episode, leading_number,
    release_group_of, season_episode, season_episode_from, source_of, stem_says, stem_series,
    title_part,
};
use crate::music::{artist_title_of, is_plausible_artist, music_metadata, music_of};
use crate::paths::stem;
use crate::pattern::{all_replaced, first_match, first_replaced, group, matches_in, Found};
use crate::probe::MediaProbe;
use crate::rules::chosen_series;
use crate::text::{
    all_digits, all_words, ascii_lower, has_text, is_blank, is_letter, is_upper, join,
    number_of, opt_text, separated, split_on, trimmed, upper_char, words, CharClass,
};
use crate::titles::{
    canonical_part, canonical_title, canonical_word, clean_names_stay, cleaned_title,
    group_name, is_generated, is_generic_file, is_generic_music, is_generic_video, is_title,
    is_worded_title, replaces_stored, series_name, tidy, title_key,
};
use crate::unicode::{alphabetic, uppercase};

verus! {

// ---------------------------------------------------------------------------
// Episodes
// ---------------------------------------------------------------------------

/// A match has a number in its first group.
pub open spec fn numbers(form: Option<Found>, n: i64) -> bool {
    form is Some && (group(form->0, 1) matches Some(digits) && number_of(digits) == Some(n))
}

/// A match does not tell an episode, and the next form is tried: it is none, or
/// its number is not between 1 and 999.
pub open spec fn is_passed(form: Option<Found>) -> bool {
    form is None || exists|n: i64| #[trigger] numbers(form, n) && (n < 1 || n > 999)
}

/// The first form that matches with a number from 1 to 999 tells the episode,
/// and what stands before the match. There is none exactly if no form has such
/// a number before one whose number cannot be read.
pub proof fn the_first_number_is_the_episode(forms: Seq<Option<Found>>)
    ensures
        forall|i: int, n: i64|
            0 <= i < forms.len() && #[trigger] numbers(forms[i], n) && 1 <= n <= 999 && (forall|j: int|
                0 <= j < i ==> is_passed(#[trigger] forms[j])) ==> anime_episode_from(forms) == Some(
                ((forms[i]->0).0, n),
            ),
        anime_episode_from(forms) matches Some((before, n)) ==> 1 <= n <= 999 && exists|i: int|
            0 <= i < forms.len() && #[trigger] numbers(forms[i], n) && (forms[i]->0).0 == before
                && forall|j: int| 0 <= j < i ==> is_passed(#[trigger] forms[j]),
        anime_episode_from(forms) is None <==> (forall|j: int|
            0 <= j < forms.len() ==> is_passed(#[trigger] forms[j])) || exists|i: int|
            0 <= i < forms.len() && (#[trigger] forms[i]) is Some && (forall|n: i64|
                !#[trigger] numbers(forms[i], n)) && forall|j: int|
                0 <= j < i ==> is_passed(#[trigger] forms[j]),
    decreases forms.len(),
{
    if forms.len() > 0 {
        let rest = forms.drop_first();
        the_first_number_is_the_episode(rest);
        assert forall|j: int| 0 <= j < rest.len() implies #[trigger] rest[j] == forms[j + 1] by {
        }
        assert forall|i: int, n: i64|
            0 <= i < forms.len() && #[trigger] numbers(forms[i], n) && 1 <= n <= 999 && (forall|
                j: int,
            | 0 <= j < i ==> is_passed(#[trigger] forms[j])) implies anime_episode_from(forms)
            == Some(((forms[i]->0).0, n)) by {
            if i > 0 {
                assert(is_passed(forms[0]));
                assert(rest[i - 1] == forms[i]);
                assert forall|j: int| 0 <= j < i - 1 implies is_passed(#[trigger] rest[j]) by {
                    assert(is_passed(forms[j + 1]));
                }
                assert(numbers(rest[i - 1], n));
            }
        }
        if forms[0] is Some && crate::episodes::group_number(forms[0]->0, 1) is Some {
            let n = crate::episodes::group_number(forms[0]->0, 1)->0;
            assert(numbers(forms[0], n));
            if 1 <= n <= 999 {
                assert(!is_passed(forms[0]));
            } else {
                assert(is_passed(forms[0]));
            }
        }
        if forms[0] is Some && crate::episodes::group_number(forms[0]->0, 1) is None {
            assert(forall|n: i64| !#[trigger] numbers(forms[0], n));
            assert(!is_passed(forms[0]));
        }
        if is_passed(forms[0]) {
            assert(anime_episode_from(forms) == anime_episode_from(rest));
            if let Some((before, n)) = anime_episode_from(rest) {
                let i = choose|i: int|
                    0 <= i < rest.len() && #[trigger] numbers(rest[i], n) && (rest[i]->0).0
                        == before && forall|j: int| 0 <= j < i ==> is_passed(#[trigger] rest[j]);
                assert(numbers(forms[i + 1], n));
                assert forall|j: int| 0 <= j < i + 1 implies is_passed(#[trigger] forms[j]) by {
                    if j > 0 {
                        assert(is_passed(rest[j - 1]));
                    }
                }
            }
            if forall|j: int| 0 <= j < rest.len() ==> is_passed(#[trigger] rest[j]) {
                assert forall|j: int| 0 <= j < forms.len() implies is_passed(#[trigger] forms[j]) by {
                    if j > 0 {
                        assert(is_passed(rest[j - 1]));
                    }
                }
            }
            if exists|i: int|
                0 <= i < rest.len() && (#[trigger] rest[i]) is Some && (forall|n: i64|
                    !#[trigger] numbers(rest[i], n)) && forall|j: int|
                    0 <= j < i ==> is_passed(#[trigger] rest[j]) {
                let i = choose|i: int|
                    0 <= i < rest.len() && (#[trigger] rest[i]) is Some && (forall|n: i64|
                        !#[trigger] numbers(rest[i], n)) && forall|j: int|
                        0 <= j < i ==> is_passed(#[trigger] rest[j]);
                assert(forms[i + 1] is Some);
                assert forall|j: int| 0 <= j < i + 1 implies is_passed(#[trigger] forms[j]) by {
                    if j > 0 {
                        assert(is_passed(rest[j - 1]));
                    }
                }
            }
            if anime_episode_from(forms) is Some {
                let n = (anime_episode_from(forms)->0).1;
                assert(!(forall|j: int| 0 <= j < rest.len() ==> is_passed(#[trigger] rest[j])));
                let k = choose|j: int| 0 <= j < rest.len() && !is_passed(#[trigger] rest[j]);
                assert(!is_passed(forms[k + 1]));
                assert forall|i: int|
                    0 <= i < forms.len() && (#[trigger] forms[i]) is Some && (forall|n: i64|
                        !#[trigger] numbers(forms[i], n)) && (forall|j: int|
                        0 <= j < i ==> is_passed(#[trigger] forms[j])) implies false by {
                    if i > 0 {
                        assert(rest[i - 1] == forms[i]);
                        assert forall|j: int| 0 <= j < i - 1 implies is_passed(
                            #[trigger] rest[j],
                        ) by {
                            assert(is_passed(forms[j + 1]));
                        }
                    } else {
                        assert(is_passed(forms[0]));
                    }
                }
            }
        }
    }
}

/// The forms of an episode in a name, each where the ones before it do not
/// match: a number behind ` -`, one between ` - ` and a space or a bracket, one
/// between a separator and a space or a bracket.
pub proof fn episodes_come_behind_a_dash(name: Seq<char>, found: Found, digits: Seq<char>, n: i64)
    requires
        group(found, 1) == Some(digits),
        number_of(digits) == Some(n),
        1 <= n <= 999,
    ensures
        first_match(r"(?i)\s+-\s*(\d{1,4})(?:v\d+)?\b"@, name) == Some(found) ==> anime_episode(name)
            == Some((found.0, n)),
        first_match(r"(?i)\s+-\s*(\d{1,4})(?:v\d+)?\b"@, name) is None && first_match(
            r"(?i)\s-\s(\d{1,3})(?:v\d+)?(?:\s|$|\[|\()"@,
            name,
        ) == Some(found) ==> anime_episode(name) == Some((found.0, n)),
        first_match(r"(?i)\s+-\s*(\d{1,4})(?:v\d+)?\b"@, name) is None && first_match(
            r"(?i)\s-\s(\d{1,3})(?:v\d+)?(?:\s|$|\[|\()"@,
            name,
        ) is None && first_match(
            r"(?i)[\s._-](\d{1,3})(?:v\d+)?(?:\s|$|\[|\()"@,
            name,
        ) == Some(found) ==> anime_episode(name) == Some((found.0, n)),
        first_match(r"(?i)\s+-\s*(\d{1,4})(?:v\d+)?\b"@, name) is None && first_match(
            r"(?i)\s-\s(\d{1,3})(?:v\d+)?(?:\s|$|\[|\()"@,
            name,
        ) is None && first_match(r"(?i)[\s._-](\d{1,3})(?:v\d+)?(?:\s|$|\[|\()"@, name) is None
            ==> anime_episode(name) is None,
{
    reveal_with_fuel(anime_episode_from, 4);
}

/// `S01E02` tells season and episode in this order, and what stands before it;
/// so does `1x02` in a name without the first form. Otherwise there is none.
pub proof fn seasons_come_before_episodes(name: Seq<char>, found: Found, season: i64, episode: i64)
    requires
        group(found, 1) matches Some(a) && number_of(a) == Some(season),
        group(found, 2) matches Some(b) && number_of(b) == Some(episode),
    ensures
        first_match(r"(?i)S(\d{1,2})[\s._-]*E(\d{1,3})"@, name) == Some(found) ==> season_episode(
            name,
        ) == Some((found.0, season, episode)),
        first_match(r"(?i)S(\d{1,2})[\s._-]*E(\d{1,3})"@, name) is None && first_match(
            r"(?i)(?:^|[\s._-])(\d{1,2})x(\d{1,3})(?:\D|$)"@,
            name,
        ) == Some(found) ==> season_episode(name) == Some((found.0, season, episode)),
        first_match(r"(?i)S(\d{1,2})[\s._-]*E(\d{1,3})"@, name) is None && first_match(
            r"(?i)(?:^|[\s._-])(\d{1,2})x(\d{1,3})(?:\D|$)"@,
            name,
        ) is None ==> season_episode(name) is None,
{
}

/// Where the first form matches, the second is not looked at. A match tells the
/// numbers of its two groups, in this order, and what stands before it, and
/// nothing where one of them is no number.
pub proof fn the_lettered_form_comes_first(
    lettered: Option<Found>,
    crossed: Option<Found>,
    season: i64,
    episode: i64,
)
    ensures
        ({
            let found = if lettered is Some {
                lettered
            } else {
                crossed
            };
            let told = season_episode_from(lettered, crossed);
            &&& found is None ==> told is None
            &&& found matches Some(f) ==> {
                let first = match group(f, 1) {
                    Some(digits) => number_of(digits),
                    None => None,
                };
                let second = match group(f, 2) {
                    Some(digits) => number_of(digits),
                    None => None,
                };
                &&& first is None || second is None ==> told is None
                &&& first == Some(season) && second == Some(episode) ==> told == Some(
                    (f.0, season, episode),
                )
            }
        }),
{
}

/// A number at the beginning of a name is an episode exactly if it is from 1 to
/// 999 and either begins with a zero or is followed by nothing but technical
/// parts.
pub proof fn leading_numbers_are_episodes(name: Seq<char>, found: Found, digits: Seq<char>, n: i64)
    requires
        first_match(r"(?i)^\s*(\d{1,3})(?:v\d+)?(?:$|([\s._\-\[\(].*)$)"@, name) == Some(found),
        group(found, 1) == Some(digits),
        number_of(digits) == Some(n),
    ensures
        ({
            let rest = match group(found, 2) {
                Some(rest) => rest,
                None => Seq::empty(),
            };
            let is_episode = 1 <= n && n <= 999 && (cleaned_title(rest) == "未命名资源"@ || (
            digits.len() >= 2 && digits[0] == '0'));
            &&& is_episode ==> leading_episode(name) == Some(n)
            &&& !is_episode ==> leading_episode(name) is None
        }),
{
}

/// A name without a number at its beginning has no leading episode.
pub proof fn other_names_have_no_leading_episode(name: Seq<char>)
    requires
        first_match(r"(?i)^\s*(\d{1,3})(?:v\d+)?(?:$|([\s._\-\[\(].*)$)"@, name) is None,
    ensures
        leading_episode(name) is None,
{
}

// ---------------------------------------------------------------------------
// Whole names
// ---------------------------------------------------------------------------

/// A name of the form `[Group][Title][21]` tells group, title and episode in
/// this order, of the first season.
pub proof fn bracketed_names_tell_their_parts(
    name: Seq<char>,
    found: Found,
    team: Seq<char>,
    title: Seq<char>,
    clean: Seq<char>,
    digits: Seq<char>,
    n: i64,
)
    requires
        first_match(
            r"^\[([^\]]{2,40})\]\s*\[([^\]]{1,160})\]\s*\[(\d{1,4})(?:v\d+)?\]"@,
            name,
        ) == Some(found),
        group(found, 1) == Some(team),
        trimmed(team, CharClass::Space).len() > 0,
        group(found, 2) == Some(title),
        group_name(title) == Some(clean),
        group(found, 3) == Some(digits),
        number_of(digits) == Some(n),
    ensures
        stem_says(name).title_guess == clean,
        stem_says(name).season_number == Some(1i64),
        stem_says(name).episode_number == Some(n),
        stem_says(name).release_group == Some(trimmed(team, CharClass::Space)),
        stem_says(name).source == source_of(name),
{
}

/// A bracketed name without a group has the group that stands elsewhere in it.
pub proof fn brackets_without_a_group_have_another(
    name: Seq<char>,
    found: Found,
    title: Seq<char>,
    clean: Seq<char>,
    digits: Seq<char>,
    n: i64,
)
    requires
        first_match(
            r"^\[([^\]]{2,40})\]\s*\[([^\]]{1,160})\]\s*\[(\d{1,4})(?:v\d+)?\]"@,
            name,
        ) == Some(found),
        group(found, 1) is None || trimmed(group(found, 1)->0, CharClass::Space).len() == 0,
        group(found, 2) == Some(title),
        group_name(title) == Some(clean),
        group(found, 3) == Some(digits),
        number_of(digits) == Some(n),
    ensures
        stem_says(name).title_guess == clean,
        stem_says(name).season_number == Some(1i64),
        stem_says(name).episode_number == Some(n),
        stem_says(name).release_group == release_group_of(name),
        stem_says(name).source == source_of(name),
{
}

/// Any other name is read without its release group in front. Season and
/// episode come from `S01E02` or `1x02`; else the episode comes from a dash
/// form, else from the beginning, of the first season; else there is none. The
/// title is what stands before them, cleaned.
pub proof fn other_names_tell_their_parts(name: Seq<char>)
    requires
        ({
            let found = first_match(
                r"^\[([^\]]{2,40})\]\s*\[([^\]]{1,160})\]\s*\[(\d{1,4})(?:v\d+)?\]"@,
                name,
            );
            ||| found is None
            ||| group(found->0, 2) is None
            ||| group_name(group(found->0, 2)->0) is None
            ||| group(found->0, 3) is None
            ||| number_of(group(found->0, 3)->0) is None
        }),
    ensures
        ({
            let plain = first_replaced(r"^\[[^\]]{2,40}\]\s*"@, name, ""@);
            let told = stem_says(name);
            &&& told.source == source_of(name)
            &&& told.release_group == release_group_of(name)
            &&& season_episode(plain) matches Some((before, season, episode)) ==> {
                &&& told.title_guess == cleaned_title(before)
                &&& told.season_number == Some(season)
                &&& told.episode_number == Some(episode)
            }
            &&& season_episode(plain) is None ==> (anime_episode(plain) matches Some(
                (before, episode),
            ) ==> {
                &&& told.title_guess == cleaned_title(before)
                &&& told.season_number == Some(1i64)
                &&& told.episode_number == Some(episode)
            })
            &&& season_episode(plain) is None && anime_episode(plain) is None ==> (leading_episode(
                plain,
            ) matches Some(episode) ==> {
                &&& told.title_guess == cleaned_title(Seq::empty())
                &&& told.season_number == Some(1i64)
                &&& told.episode_number == Some(episode)
            })
            &&& season_episode(plain) is None && anime_episode(plain) is None && leading_episode(
                plain,
            ) is None ==> {
                &&& told.title_guess == cleaned_title(plain)
                &&& told.season_number is None
                &&& told.episode_number is None
            }
        }),
{
}

/// The release group is what stands in brackets in front; else what stands
/// behind the last dash, without dots, underscores and dashes at its ends.
pub proof fn release_groups_stand_in_front_or_behind(
    name: Seq<char>,
    found: Found,
    text: Seq<char>,
)
    requires
        group(found, 1) == Some(text),
    ensures
        first_match(r"^\[([^\]]{2,40})\]"@, name) == Some(found) ==> release_group_of(name) == Some(
            trimmed(text, CharClass::Space),
        ),
        first_match(r"^\[([^\]]{2,40})\]"@, name) is None && first_match(
            r"-([A-Za-z0-9][A-Za-z0-9._-]{1,39})$"@,
            name,
        ) == Some(found) ==> release_group_of(name) == (if trimmed(
            text,
            CharClass::GroupEdge,
        ).len() == 0 {
            None::<Seq<char>>
        } else {
            Some(trimmed(text, CharClass::GroupEdge))
        }),
        first_match(r"^\[([^\]]{2,40})\]"@, name) is None && first_match(
            r"-([A-Za-z0-9][A-Za-z0-9._-]{1,39})$"@,
            name,
        ) is None ==> release_group_of(name) is None,
{
}

/// The source of a release is told by the first of twelve marks that its name
/// holds in capitals, with dots and underscores as spaces.
pub proof fn sources_are_told_by_marks(name: Seq<char>)
    ensures
        ({
            let text = uppercase(separated(name));
            source_of(name) == (if has_text(text, "UHD BLURAY"@) {
                Some("UHD BluRay"@)
            } else if has_text(text, "BDREMUX"@) {
                Some("BD Remux"@)
            } else if has_text(text, "REMUX"@) {
                Some("Remux"@)
            } else if has_text(text, "BLU RAY"@) || has_text(text, "BLURAY"@) {
                Some("BluRay"@)
            } else if has_text(text, "BDRIP"@) {
                Some("BDRip"@)
            } else if has_text(text, "WEB DL"@) || has_text(text, "WEBDL"@) {
                Some("WEB-DL"@)
            } else if has_text(text, "WEBRIP"@) {
                Some("WEBRip"@)
            } else if has_text(text, "HDTV"@) {
                Some("HDTV"@)
            } else if has_text(text, "DVDRIP"@) {
                Some("DVDRip"@)
            } else if has_text(text, "DVD"@) {
                Some("DVD"@)
            } else {
                None
            })
        }),
{
    reveal_with_fuel(crate::episodes::first_source, 13);
}

/// Dots and underscores are spaces to a reader of names, and nothing else is
/// changed.
pub proof fn separators_are_spaces(name: Seq<char>, i: int)
    requires
        0 <= i < name.len(),
    ensures
        separated(name).len() == name.len(),
        name[i] == '.' || name[i] == '_' ==> separated(name)[i] == ' ',
        name[i] != '.' && name[i] != '_' ==> separated(name)[i] == name[i],
{
}

// ---------------------------------------------------------------------------
// Generic names
// ---------------------------------------------------------------------------

/// A directory of videos is generic exactly if its key is that of a season, a
/// disc or an episode, or one of these.
pub proof fn video_directories_are_generic(name: Seq<char>)
    ensures
        ({
            let key = title_key(name);
            is_generic_video(name) <==> matches_in(r"^(?:s|season-?)(?:\d{1,3})$"@, key) || matches_in(
                r"^(?:cd|disc|disk|vol|volume)-?\d{1,3}$"@,
                key,
            ) || matches_in(
                r"^(?:s\d{1,3}e\d{1,4}|\d{1,3}x\d{1,4}|(?:e|ep|episode)-?\d{1,4})$"@,
                key,
            ) || key == "season"@
                || key == "season-1"@
                || key == "season-01"@
                || key == "extras"@
                || key == "extra"@
                || key == "specials"@
                || key == "ova"@
                || key == "oad"@
                || key == "sp"@
                || key == "subs"@
                || key == "subtitle"@
                || key == "subtitles"@
                || key == "bdmv"@
                || key == "stream"@
                || key == "video"@
                || key == "videos"@
                || key == "anime"@
                || key == "animation"@
                || key == "tv"@
                || key == "tv-series"@
                || key == "series"@
                || key == "movie"@
                || key == "movies"@
        }),
{
    let list = crate::titles::generic_video_keys();
    assert(list.len() == 23);
    assert(list[0] == "season"@);
    assert(list[1] == "season-1"@);
    assert(list[2] == "season-01"@);
    assert(list[3] == "extras"@);
    assert(list[4] == "extra"@);
    assert(list[5] == "specials"@);
    assert(list[6] == "ova"@);
    assert(list[7] == "oad"@);
    assert(list[8] == "sp"@);
    assert(list[9] == "subs"@);
    assert(list[10] == "subtitle"@);
    assert(list[11] == "subtitles"@);
    assert(list[12] == "bdmv"@);
    assert(list[13] == "stream"@);
    assert(list[14] == "video"@);
    assert(list[15] == "videos"@);
    assert(list[16] == "anime"@);
    assert(list[17] == "animation"@);
    assert(list[18] == "tv"@);
    assert(list[19] == "tv-series"@);
    assert(list[20] == "series"@);
    assert(list[21] == "movie"@);
    assert(list[22] == "movies"@);
}

/// A directory of music is generic exactly if its key is that of a disc, or one
/// of these.
pub proof fn music_directories_are_generic(name: Seq<char>)
    ensures
        ({
            let key = title_key(name);
            is_generic_music(name) <==> matches_in(
                r"^(?:cd|disc|disk|vol|volume)-?\d{1,3}$"@,
                key,
            ) || key == "ost"@
                || key == "music"@
                || key == "audio"@
                || key == "songs"@
                || key == "soundtrack"@
                || key == "soundtracks"@
                || key == "cd"@
                || key == "disc"@
        }),
{
    let list = crate::titles::generic_music_keys();
    assert(list.len() == 8);
    assert(list[0] == "ost"@);
    assert(list[1] == "music"@);
    assert(list[2] == "audio"@);
    assert(list[3] == "songs"@);
    assert(list[4] == "soundtrack"@);
    assert(list[5] == "soundtracks"@);
    assert(list[6] == "cd"@);
    assert(list[7] == "disc"@);
}

/// A title from a file name says only what kind of extra a file is exactly if
/// its key is one of these.
pub proof fn file_titles_are_generic(title: Seq<char>)
    ensures
        ({
            let key = title_key(title);
            is_generic_file(title) <==> key == "episode"@
                || key == "ep"@
                || key == "special"@
                || key == "specials"@
                || key == "sp"@
                || key == "ova"@
                || key == "oad"@
                || key == "ncop"@
                || key == "nced"@
                || key == "op"@
                || key == "ed"@
                || key == "pv"@
                || key == "cm"@
                || key == "trailer"@
                || key == "preview"@
                || key == "sample"@
                || key == "menu"@
                || key == "bonus"@
                || key == "extra"@
                || key == "extras"@
        }),
{
    let list = crate::titles::generic_file_keys();
    assert(list.len() == 20);
    assert(list[0] == "episode"@);
    assert(list[1] == "ep"@);
    assert(list[2] == "special"@);
    assert(list[3] == "specials"@);
    assert(list[4] == "sp"@);
    assert(list[5] == "ova"@);
    assert(list[6] == "oad"@);
    assert(list[7] == "ncop"@);
    assert(list[8] == "nced"@);
    assert(list[9] == "op"@);
    assert(list[10] == "ed"@);
    assert(list[11] == "pv"@);
    assert(list[12] == "cm"@);
    assert(list[13] == "trailer"@);
    assert(list[14] == "preview"@);
    assert(list[15] == "sample"@);
    assert(list[16] == "menu"@);
    assert(list[17] == "bonus"@);
    assert(list[18] == "extra"@);
    assert(list[19] == "extras"@);
}

/// A title says something exactly if it is not the placeholder, its key is not
/// empty and not `unknown`, and it is not a number of up to three, of six or of
/// eight digits.
pub proof fn titles_say_something(title: Seq<char>)
    ensures
        ({
            let key = title_key(title);
            let n = key.len();
            &&& is_title(title) <==> title != "未命名资源"@ && key != "unknown"@ && n > 0 && !(
            all_digits(key) && (n <= 3 || n == 6 || n == 8))
            &&& is_worded_title(title) <==> title != "未命名资源"@ && key != "unknown"@ && n > 0
                && !all_digits(key)
            &&& is_generated(title) <==> all_digits(key) && (n == 6 || n == 8)
        }),
{
}

/// A directory states a series exactly if its title is none of the generic
/// ones and no date: whatever stands in a directory `Specials`, `Season 1`,
/// `CD2`, `Movies` or `202604` has its series from elsewhere.
pub proof fn generic_directories_are_passed_over(name: Seq<char>, title: Seq<char>)
    requires
        directory_title(name) == Some(title),
    ensures
        ({
            let key = title_key(title);
            let is_generic = matches_in(r"^(?:s|season-?)(?:\d{1,3})$"@, key) || matches_in(
                r"^(?:cd|disc|disk|vol|volume)-?\d{1,3}$"@,
                key,
            ) || matches_in(
                r"^(?:s\d{1,3}e\d{1,4}|\d{1,3}x\d{1,4}|(?:e|ep|episode)-?\d{1,4})$"@,
                key,
            ) || key == "season"@
                || key == "season-1"@
                || key == "season-01"@
                || key == "extras"@
                || key == "extra"@
                || key == "specials"@
                || key == "ova"@
                || key == "oad"@
                || key == "sp"@
                || key == "subs"@
                || key == "subtitle"@
                || key == "subtitles"@
                || key == "bdmv"@
                || key == "stream"@
                || key == "video"@
                || key == "videos"@
                || key == "anime"@
                || key == "animation"@
                || key == "tv"@
                || key == "tv-series"@
                || key == "series"@
                || key == "movie"@
                || key == "movies"@ || (all_digits(key) && (key.len() == 6 || key.len()
                == 8));
            &&& is_generic ==> series_candidate(name) is None
            &&& !is_generic ==> series_candidate(name) == Some(title)
        }),
{
    video_directories_are_generic(title);
}

/// A directory that states no series leaves it to the one above it.
pub proof fn silent_directories_leave_the_series_to_the_one_above(
    above: Seq<Seq<char>>,
    name: Seq<char>,
)
    ensures
        series_candidate(name) is None ==> last_candidate(above.push(name)) == last_candidate(above),
        series_candidate(name) is Some ==> last_candidate(above.push(name)) == series_candidate(
            name,
        ),
{
    assert(above.push(name).drop_last() =~= above);
}

/// A file name is trusted with the series exactly if its title is worded and no
/// mere extra, and the name has two bracketed parts, states an episode behind a
/// title, or does not begin with one.
pub proof fn worded_titles_are_trusted(name: Seq<char>, title: Seq<char>)
    ensures
        ({
            let key = title_key(title);
            let is_extra = key == "episode"@
                || key == "ep"@
                || key == "special"@
                || key == "specials"@
                || key == "sp"@
                || key == "ova"@
                || key == "oad"@
                || key == "ncop"@
                || key == "nced"@
                || key == "op"@
                || key == "ed"@
                || key == "pv"@
                || key == "cm"@
                || key == "trailer"@
                || key == "preview"@
                || key == "sample"@
                || key == "menu"@
                || key == "bonus"@
                || key == "extra"@
                || key == "extras"@;
            is_confident(name, title) <==> is_worded_title(title) && !is_extra && (matches_in(
                r"^\[[^\]]+\]\s*\[[^\]]+\]"@,
                name,
            ) || season_episode(name) is Some || anime_episode(name) is Some || leading_episode(
                name,
            ) is None)
        }),
        stem_series(name) == (if is_confident(name, series_name(stem_says(name).title_guess)) {
            Some(series_name(stem_says(name).title_guess))
        } else {
            None::<Seq<char>>
        }),
{
    file_titles_are_generic(title);
}

/// A directory name of the bracketed form states the title in its second
/// bracket. Any other is read without its release group, its order number, its
/// technical parts and its season.
pub proof fn directories_state_their_title(name: Seq<char>)
    ensures
        ({
            let bracketed = first_match(
                r"^\[([^\]]{2,40})\]\s*\[([^\]]{1,160})\]\s*\[(\d{1,4})(?:v\d+)?\]"@,
                name,
            );
            let plain = first_replaced(r"^\[[^\]]{2,40}\]\s*"@, name, ""@);
            let source = if is_blank(plain) {
                name
            } else {
                plain
            };
            let ordered = series_name(first_replaced(r"^\s*\d{1,3}\s*[-._]\s*"@, source, ""@));
            let title = series_name(
                first_replaced(
                    r"(?i)\s+-?\s*(?:s\d{1,3}|season\s*\d{1,3}|\d+(?:st|nd|rd|th)\s+season|part\s*\d{1,3}|cour\s*\d{1,3}|第\s*\d{1,3}\s*[季期])\s*$"@,
                    ordered,
                    ""@,
                ),
            );
            let inner = match bracketed {
                Some(found) => match group(found, 2) {
                    Some(text) => group_name(text),
                    None => None,
                },
                None => None,
            };
            let is_numbered = bracketed is Some && (group(bracketed->0, 3) matches Some(digits)
                && number_of(digits) is Some);
            let is_bracketed = inner is Some && is_numbered && is_title(inner->0);
            &&& is_bracketed ==> directory_title(name) == Some(series_name(inner->0))
            &&& !is_bracketed && is_title(title) ==> directory_title(name) == Some(title)
            &&& !is_bracketed && !is_title(title) ==> directory_title(name) is None
        }),
{
}

// ---------------------------------------------------------------------------
// Titles
// ---------------------------------------------------------------------------

/// A title loses a technical suffix, release tags, what stands in brackets and
/// an unclosed technical bracket, in this order, and is tidied; where nothing
/// is left it is that of a resource without a name.
pub proof fn titles_lose_their_technical_parts(value: Seq<char>)
    ensures
        ({
            let a = first_replaced(
                r"(?i)\s+-\s+(?:bd[- ]?box|bd|blu[- ]?ray|dvd|web[- ]?dl|webrip|remux|disc\s*\d+|vol\.?\s*\d+).*$"@,
                separated(value),
                " "@,
            );
            let b = all_replaced(
                r"(?i)\b(3840x2160|1920x1080|1280x720|2160p|1080p|720p|480p|4k|8k|bd[- ]?box|web[- ]?dl|webrip|bdrip|blu[- ]?ray|bdremux|remux|hdtv|x264|x265|h\.?264|h\.?265|avc|hevc|av1|aacx\d+|aac|flac|truehd|dts|12[- ]?bit|10[- ]?bit|8[- ]?bit|hdr|dv)\b"@,
                a,
                " "@,
            );
            let c = all_replaced(r"[\[\(][^\]\)]*[\]\)]"@, b, " "@);
            let d = first_replaced(
                r"(?i)\s*[\[\(](?:bd|blu[- ]?ray|dvd|web[- ]?dl|webrip|remux|hdtv|uhd|3840x2160|1920x1080|1280x720|2160p|1080p|720p|avc|hevc|x264|x265|aac|flac|dts|12[- ]?bit|10[- ]?bit).*$"@,
                c,
                " "@,
            );
            &&& tidy(d).len() > 0 ==> cleaned_title(value) == tidy(d)
            &&& tidy(d).len() == 0 ==> cleaned_title(value) == "未命名资源"@
        }),
{
}

/// The name of a series is its title without an episode number at the end, tidy
/// and in canonical case; a title that says nothing stays.
pub proof fn series_lose_their_episode(value: Seq<char>)
    ensures
        ({
            let cleaned = cleaned_title(value);
            let left = tidy(first_replaced(r"(?i)\s+-\s*\d{1,4}(?:v\d+)?$"@, cleaned, " "@));
            &&& cleaned == "未命名资源"@ ==> series_name(value) == "未命名资源"@
            &&& cleaned != "未命名资源"@ && left.len() == 0 ==> series_name(value) == "未命名资源"@
            &&& cleaned != "未命名资源"@ && left.len() > 0 ==> series_name(value) == canonical_title(
                left,
            )
        }),
{
}

/// A word of ASCII letters without a dash is written with a capital and small
/// letters; but one of the small words stays small unless it is the first, and
/// up to five capitals stay capitals.
pub proof fn words_are_capitalized(word: Seq<char>, first: bool)
    requires
        word.len() > 0,
        forall|i: int| 0 <= i < word.len() ==> is_letter(#[trigger] word[i]),
    ensures
        ({
            let lower = ascii_lower(word);
            let is_small = lower == "a"@
                || lower == "an"@
                || lower == "and"@
                || lower == "as"@
                || lower == "at"@
                || lower == "for"@
                || lower == "in"@
                || lower == "no"@
                || lower == "of"@
                || lower == "on"@
                || lower == "or"@
                || lower == "the"@
                || lower == "to"@;
            let is_short_name = word.len() <= 5 && forall|i: int|
                0 <= i < word.len() ==> is_upper(#[trigger] word[i]);
            &&& is_short_name ==> canonical_word(word, first) == word
            &&& !is_short_name && is_small && !first ==> canonical_word(word, first) == lower
            &&& !is_short_name && (first || !is_small) ==> {
                &&& canonical_word(word, first).len() == word.len()
                &&& canonical_word(word, first)[0] == upper_char(lower[0])
                &&& forall|i: int|
                    1 <= i < word.len() ==> #[trigger] canonical_word(word, first)[i] == lower[i]
            }
        }),
{
    let list = crate::titles::small_words();
    assert(list.len() == 13);
    assert(list[0] == "a"@);
    assert(list[1] == "an"@);
    assert(list[2] == "and"@);
    assert(list[3] == "as"@);
    assert(list[4] == "at"@);
    assert(list[5] == "for"@);
    assert(list[6] == "in"@);
    assert(list[7] == "no"@);
    assert(list[8] == "of"@);
    assert(list[9] == "on"@);
    assert(list[10] == "or"@);
    assert(list[11] == "the"@);
    assert(list[12] == "to"@);
    assert(is_letter(word[0]));
    assert forall|i: int| 0 <= i < word.len() implies word[i] != '-' && word[i] != '\'' by {
        assert(is_letter(word[i]));
    }
    assert(!word.contains('-'));
    lemma_one_part(word);
    let parts = seq![word];
    assert(parts.map_values(|p: Seq<char>| canonical_part(p, first)) =~= seq![
        canonical_part(word, first),
    ]);
}

/// A word with a digit or a sign other than the dash and the apostrophe stays,
/// and so does one without letters.
pub proof fn other_words_stay(word: Seq<char>, first: bool, i: int)
    ensures
        0 <= i < word.len() && !is_letter(word[i]) && word[i] != '-' && word[i] != '\''
            ==> canonical_word(word, first) == word,
        (forall|j: int| 0 <= j < word.len() ==> !is_letter(#[trigger] word[j])) ==> canonical_word(
            word,
            first,
        ) == word,
{
}

/// A word with dashes is written part by part, each like a word.
pub proof fn dashed_words_are_capitalized_by_parts(parts: Seq<Seq<char>>, first: bool, i: int)
    requires
        0 <= i < parts.len(),
        parts.len() > 1,
        forall|k: int| 0 <= k < parts.len() ==> (#[trigger] parts[k]).len() > 0,
        forall|k: int, j: int|
            0 <= k < parts.len() && 0 <= j < parts[k].len() ==> is_letter(#[trigger] parts[k][j]),
    ensures
        ({
            let shown = split_on(canonical_word(join(parts, seq!['-']), first), '-');
            &&& shown.len() == parts.len()
            &&& shown[i] == canonical_part(parts[i], first)
        }),
{
    let word = join(parts, seq!['-']);
    let written = parts.map_values(|p: Seq<char>| canonical_part(p, first));
    assert forall|k: int| 0 <= k < parts.len() implies !(#[trigger] parts[k]).contains('-') by {
        if parts[k].contains('-') {
            let j = choose|j: int| 0 <= j < parts[k].len() && parts[k][j] == '-';
            assert(is_letter(parts[k][j]));
        }
    }
    crate::text::joined_parts_are_found_again(parts, '-');
    assert(split_on(word, '-') == parts);
    assert forall|c: char| #[trigger] word.contains(c) implies is_letter(c) || c == '-' by {
        crate::text::joined_text_holds_the_parts(parts, '-', c);
        if c != '-' {
            let k = choose|k: int| 0 <= k < parts.len() && (#[trigger] parts[k]).contains(c);
            let j = choose|j: int| 0 <= j < parts[k].len() && parts[k][j] == c;
            assert(is_letter(parts[k][j]));
        }
    }
    crate::text::joined_text_holds_the_parts(parts, '-', parts[0][0]);
    assert(parts[0].contains(parts[0][0]));
    assert(word.contains(parts[0][0]));
    let n = join(parts.drop_last(), seq!['-']).len() as int;
    assert(word[n] == '-');
    assert(word.contains('-'));
    let at = choose|k: int| 0 <= k < word.len() && word[k] == '-';
    let letter = choose|k: int| 0 <= k < word.len() && word[k] == parts[0][0];
    assert(is_letter(parts[0][0]));
    assert(is_letter(word[letter]));
    assert(!is_upper(word[at]));
    assert forall|k: int| 0 <= k < word.len() implies is_letter(#[trigger] word[k]) || word[k]
        == '-' by {
        assert(word.contains(word[k]));
    }
    assert(canonical_word(word, first) == join(written, seq!['-']));
    assert forall|k: int| 0 <= k < written.len() implies !(#[trigger] written[k]).contains('-') by {
        lemma_part_without_dash(parts[k], first);
    }
    crate::text::joined_parts_are_found_again(written, '-');
}

proof fn lemma_part_without_dash(part: Seq<char>, first: bool)
    requires
        part.len() > 0,
        !part.contains('-'),
    ensures
        !canonical_part(part, first).contains('-'),
{
    let shown = canonical_part(part, first);
    let lower = ascii_lower(part);
    if shown.contains('-') {
        let k = choose|k: int| 0 <= k < shown.len() && shown[k] == '-';
        assert(part.contains(part[k]));
        assert(lower[k] == crate::text::lower_char(part[k]));
        if shown != lower {
            assert(shown == seq![upper_char(lower[0])] + lower.drop_first());
            if k > 0 {
                assert(shown[k] == lower[k]);
            }
        }
    }
}

/// A part of a word has a capital and small letters, unless it is one of the
/// small words and not in the first word, which stay small.
pub proof fn parts_are_capitalized(part: Seq<char>, first: bool)
    requires
        part.len() > 0,
    ensures
        ({
            let lower = ascii_lower(part);
            let is_small = lower == "a"@
                || lower == "an"@
                || lower == "and"@
                || lower == "as"@
                || lower == "at"@
                || lower == "for"@
                || lower == "in"@
                || lower == "no"@
                || lower == "of"@
                || lower == "on"@
                || lower == "or"@
                || lower == "the"@
                || lower == "to"@;
            &&& is_small && !first ==> canonical_part(part, first) == lower
            &&& first || !is_small ==> {
                &&& canonical_part(part, first).len() == part.len()
                &&& canonical_part(part, first)[0] == upper_char(lower[0])
                &&& forall|i: int|
                    1 <= i < part.len() ==> #[trigger] canonical_part(part, first)[i] == lower[i]
            }
        }),
{
    let list = crate::titles::small_words();
    assert(list.len() == 13);
    assert(list[0] == "a"@);
    assert(list[1] == "an"@);
    assert(list[2] == "and"@);
    assert(list[3] == "as"@);
    assert(list[4] == "at"@);
    assert(list[5] == "for"@);
    assert(list[6] == "in"@);
    assert(list[7] == "no"@);
    assert(list[8] == "of"@);
    assert(list[9] == "on"@);
    assert(list[10] == "or"@);
    assert(list[11] == "the"@);
    assert(list[12] == "to"@);
    let lower = ascii_lower(part);
    if list.contains(lower) {
        let i = choose|i: int| 0 <= i < list.len() && list[i] == lower;
        assert(0 <= i < 13);
    }
}

/// A title is written word by word, with the first word as such and one space
/// between neighbours.
pub proof fn titles_are_written_word_by_word(parts: Seq<Seq<char>>)
    requires
        all_words(parts),
    ensures
        canonical_title(join(parts, seq![' '])) == join(
            Seq::new(parts.len(), |i: int| canonical_word(parts[i], i == 0)),
            seq![' '],
        ),
{
    crate::text::joined_words_are_found_again(parts);
    assert(parts.map(|i: int, w: Seq<char>| canonical_word(w, i == 0)) =~= Seq::new(
        parts.len(),
        |i: int| canonical_word(parts[i], i == 0),
    ));
}

/// Tidying puts one space between words and cuts off separators at the ends.
pub proof fn tidy_text_is_words(parts: Seq<Seq<char>>, value: Seq<char>)
    requires
        all_words(parts),
    ensures
        tidy(join(parts, seq![' '])) == trimmed(join(parts, seq![' ']), CharClass::TitleEdge),
        tidy(value) == tidy(join(words(value), seq![' '])),
{
    crate::text::joined_words_are_found_again(parts);
    crate::text::words_are_words(value);
    crate::text::joined_words_are_found_again(words(value));
}

/// The name of a group has spaces for underscores, is tidy, and is none where
/// nothing is left.
pub proof fn group_names_are_tidy(value: Seq<char>)
    ensures
        ({
            let spaced_out = crate::text::swapped(value, '_', ' ');
            &&& tidy(spaced_out).len() > 0 ==> group_name(value) == Some(tidy(spaced_out))
            &&& tidy(spaced_out).len() == 0 ==> group_name(value) is None
        }),
{
}

proof fn lemma_one_part(word: Seq<char>)
    requires
        !word.contains('-'),
    ensures
        split_on(word, '-') == seq![word],
{
    let parts = seq![word];
    assert(join(parts, seq!['-']) == word);
    crate::text::joined_parts_are_found_again(parts, '-');
}

// ---------------------------------------------------------------------------
// Families
// ---------------------------------------------------------------------------

/// A series whose key holds `monogatari` and more belongs to the family
/// Monogatari.
pub proof fn monogatari_is_a_family(
    path: Seq<char>,
    root: Seq<char>,
    series: Seq<char>,
    windows: bool,
)
    ensures
        has_text(title_key(series), "monogatari"@) && title_key(series) != "monogatari"@
            ==> series_family(path, root, series, windows) == Some("Monogatari"@),
        !has_text(title_key(series), "monogatari"@) || title_key(series) == "monogatari"@
            ==> series_family(path, root, series, windows) == family_among(
            candidates_among(parent_names(path, root, windows)),
            title_key(series),
        ),
{
}

/// The family of a series is the title that the directories state right before
/// the last one with the key of the series, and only where this key is that of
/// the family, a dash and more.
pub proof fn families_stand_right_above(candidates: Seq<Seq<char>>, key: Seq<char>, i: int)
    requires
        0 <= i < candidates.len(),
        title_key(candidates[i]) == key,
        forall|j: int| i < j < candidates.len() ==> title_key(#[trigger] candidates[j]) != key,
    ensures
        i == 0 ==> family_among(candidates, key) is None,
        i > 0 ==> ((title_key(candidates[i - 1]) + seq!['-']).is_prefix_of(key) ==> family_among(
            candidates,
            key,
        ) == Some(candidates[i - 1])),
        i > 0 ==> (!(title_key(candidates[i - 1]) + seq!['-']).is_prefix_of(key) ==> family_among(
            candidates,
            key,
        ) is None),
{
    lemma_last_with_key(candidates, key, i);
    if i > 0 {
        assert(title_key(candidates[i - 1]).push('-') =~= title_key(candidates[i - 1]) + seq!['-']);
    }
}

proof fn lemma_last_with_key(candidates: Seq<Seq<char>>, key: Seq<char>, i: int)
    requires
        0 <= i < candidates.len(),
        title_key(candidates[i]) == key,
        forall|j: int| i < j < candidates.len() ==> title_key(#[trigger] candidates[j]) != key,
    ensures
        crate::directories::last_with_key(candidates, key) == i,
    decreases candidates.len(),
{
    if i < candidates.len() - 1 {
        assert(title_key(candidates[candidates.len() - 1]) != key);
        lemma_last_with_key(candidates.drop_last(), key, i);
    }
}

// ---------------------------------------------------------------------------
// Artists and albums
// ---------------------------------------------------------------------------

proof fn lemma_meaningful(names: Seq<Seq<char>>, from: int)
    requires
        0 <= from <= names.len(),
        forall|k: int| from <= k < names.len() ==> is_generic_music(#[trigger] names[k]),
    ensures
        meaningful(names) == meaningful(names.take(from)),
    decreases names.len() - from,
{
    reveal(Seq::filter);
    if from < names.len() {
        let shorter = names.drop_last();
        assert(is_generic_music(names[names.len() - 1]));
        assert forall|k: int| from <= k < shorter.len() implies is_generic_music(
            #[trigger] shorter[k],
        ) by {
            assert(shorter[k] == names[k]);
        }
        lemma_meaningful(shorter, from);
        assert(shorter.take(from) =~= names.take(from));
    } else {
        assert(names.take(from) =~= names);
    }
}

proof fn lemma_meaningful_last(names: Seq<Seq<char>>, i: int)
    requires
        0 <= i < names.len(),
        !is_generic_music(names[i]),
        forall|k: int| i < k < names.len() ==> is_generic_music(#[trigger] names[k]),
    ensures
        meaningful(names) == meaningful(names.take(i)).push(names[i]),
{
    lemma_meaningful(names, i + 1);
    reveal(Seq::filter);
    assert(names.take(i + 1).drop_last() =~= names.take(i));
    assert(names.take(i + 1).last() == names[i]);
}

/// The artist is the telling directory right above the album, and the album is
/// the last telling directory, whatever generic directories stand between and
/// behind them and whatever stands above.
pub proof fn the_artist_stands_above_the_album(
    names: Seq<Seq<char>>,
    artist: int,
    album: int,
)
    requires
        0 <= artist < album < names.len(),
        !is_generic_music(names[artist]),
        !is_generic_music(names[album]),
        forall|k: int| artist < k < album ==> is_generic_music(#[trigger] names[k]),
        forall|k: int| album < k < names.len() ==> is_generic_music(#[trigger] names[k]),
        group_name(names[artist]) == Some(names[artist]),
        group_name(names[album]) == Some(names[album]),
    ensures
        artist_among(names) == Some(names[artist]),
        album_among(names) == Some(names[album]),
{
    lemma_meaningful_last(names, album);
    let above = names.take(album);
    assert forall|k: int| artist < k < above.len() implies is_generic_music(#[trigger] above[k]) by {
        assert(above[k] == names[k]);
    }
    lemma_meaningful_last(above, artist);
    let telling = meaningful(names);
    assert(telling.len() >= 2);
    assert(telling[telling.len() - 1] == names[album]);
    assert(telling[telling.len() - 2] == names[artist]);
}

/// Where one directory alone tells something it is the artist, and there is no
/// album; where none does there is neither.
pub proof fn one_directory_is_the_artist(names: Seq<Seq<char>>, artist: int)
    requires
        -1 <= artist < names.len(),
        artist >= 0 ==> !is_generic_music(names[artist]) && group_name(names[artist]) == Some(
            names[artist],
        ),
        forall|k: int| 0 <= k < names.len() && k != artist ==> is_generic_music(#[trigger] names[k]),
    ensures
        album_among(names) is None,
        artist >= 0 ==> artist_among(names) == Some(names[artist]),
        artist < 0 ==> artist_among(names) is None,
{
    if artist >= 0 {
        lemma_meaningful_last(names, artist);
        let above = names.take(artist);
        assert forall|k: int| 0 <= k < above.len() implies is_generic_music(#[trigger] above[k]) by {
            assert(above[k] == names[k]);
        }
        lemma_meaningful(above, 0);
        assert(above.take(0) =~= Seq::empty());
        reveal(Seq::filter);
        assert(meaningful(Seq::empty()) =~= Seq::empty());
    } else {
        lemma_meaningful(names, 0);
        assert(names.take(0) =~= Seq::empty());
        reveal(Seq::filter);
        assert(meaningful(Seq::empty()) =~= Seq::empty());
    }
}

proof fn lemma_clean_names(parts: Seq<Seq<char>>)
    ensures
        forall|i: int|
            0 <= i < clean_names(parts).len() ==> group_name(#[trigger] clean_names(parts)[i])
                == Some(clean_names(parts)[i]),
    decreases parts.len(),
{
    if parts.len() > 0 {
        lemma_clean_names(parts.drop_last());
        clean_names_stay(parts.last());
        let before = clean_names(parts.drop_last());
        assert forall|i: int| 0 <= i < clean_names(parts).len() implies group_name(
            #[trigger] clean_names(parts)[i],
        ) == Some(clean_names(parts)[i]) by {
            if i < before.len() {
                assert(clean_names(parts)[i] == before[i]);
            }
        }
    }
}

/// The names of the directories of a file are clean, so that an artist or an
/// album is a directory's name as it stands.
pub proof fn directory_names_are_clean(path: Seq<char>, root: Seq<char>, windows: bool, i: int)
    requires
        0 <= i < parent_names(path, root, windows).len(),
    ensures
        group_name(parent_names(path, root, windows)[i]) == Some(
            parent_names(path, root, windows)[i],
        ),
{
    let parent = crate::paths::path_parent(path, windows)->0;
    lemma_clean_names(
        crate::paths::path_components(
            match crate::paths::path_below(parent, root, windows) {
                Some(relative) => relative,
                None => parent,
            },
            windows,
        ),
    );
}

/// `artist - title` in a file name tells both in this order, where the artist
/// has a letter and is no generic name.
pub proof fn file_names_tell_artist_and_title(
    found: Found,
    first: Seq<char>,
    second: Seq<char>,
    artist: Seq<char>,
    title: Seq<char>,
)
    requires
        group(found, 1) == Some(first),
        group(found, 2) == Some(second),
        group_name(first) == Some(artist),
        group_name(second) == Some(title),
    ensures
        (exists|i: int|
            0 <= i < title_key(artist).len() && alphabetic(#[trigger] title_key(artist)[i]))
            && !is_generic_music(artist) ==> artist_title_of(Some(found)) == Some((artist, title)),
        (forall|i: int|
            0 <= i < title_key(artist).len() ==> !alphabetic(#[trigger] title_key(artist)[i]))
            || is_generic_music(artist) ==> artist_title_of(Some(found)) is None,
{
}

/// What is told of music: the artist by tag, by `artist - title` in the file
/// name, by the directories; the album by tag and by the directories; the title
/// by tag, by `artist - title`, by the cleaned file name.
pub proof fn music_is_told_by_priority(
    probe: MediaProbe,
    path: Seq<char>,
    root: Seq<char>,
    file_name: Seq<char>,
    windows: bool,
)
    ensures
        ({
            let told = music_metadata(probe, path, root, file_name, windows);
            let names = parent_names(path, root, windows);
            let own = stem(file_name, windows);
            let named = artist_title_of(first_match(r"^\s*(.+?)\s+-\s+(.+?)\s*$"@, own));
            let tag = opt_text(probe.music_artist);
            &&& tag is Some && tag->0.len() > 0 ==> told.artist == tag->0 && told.artist_source
                == "tag"@
            &&& !(tag is Some && tag->0.len() > 0) ==> {
                &&& named matches Some((artist, _)) ==> told.artist == artist && told.artist_source
                    == "filename"@
                &&& named is None ==> (artist_among(names) matches Some(artist) ==> told.artist
                    == artist && told.artist_source == "directory"@)
                &&& named is None && artist_among(names) is None ==> told.artist == "未知作者"@
                    && told.artist_source == "unknown"@
            }
            &&& probe.music_album is Some ==> told.album == opt_text(probe.music_album)
            &&& probe.music_album is None ==> told.album == album_among(names)
            &&& probe.music_title is Some ==> told.title == opt_text(probe.music_title)
            &&& probe.music_title is None ==> {
                &&& named matches Some((_, title)) ==> told.title == Some(title)
                &&& named is None && cleaned_title(own) != "未命名资源"@ ==> told.title == Some(
                    cleaned_title(own),
                )
                &&& named is None && cleaned_title(own) == "未命名资源"@ ==> told.title is None
            }
        }),
{
}

/// Where neither file name nor directories tell a series, the title of the file
/// name is taken as it is, and a file without one is of the unknown series.
pub proof fn series_are_told_by_priority(
    path: Seq<char>,
    root: Seq<char>,
    title: Seq<char>,
    windows: bool,
)
    ensures
        ({
            let file_name = match crate::paths::path_file_name(path, windows) {
                Some(name) => name,
                None => Seq::empty(),
            };
            let names = parent_names(path, root, windows);
            let (series, source) = video_series(path, root, title, windows);
            let root_series = match crate::paths::path_file_name(root, windows) {
                Some(name) => series_candidate(name),
                None => None,
            };
            &&& is_confident(stem(file_name, windows), series_name(title)) ==> series
                == series_name(title) && source == "filename"@
            &&& !is_confident(stem(file_name, windows), series_name(title)) ==> {
                &&& last_candidate(names) matches Some(found) ==> series == found && source
                    == "directory"@
                &&& last_candidate(names) is None ==> (root_series matches Some(found) ==> series
                    == found && source == "directory"@)
                &&& last_candidate(names) is None && root_series is None && title != "未命名资源"@
                    ==> series == series_name(title) && source == "filename"@
                &&& last_candidate(names) is None && root_series is None && title == "未命名资源"@
                    ==> series == "未识别系列"@ && source == "unknown"@
            }
        }),
{
}

/// The titles that directories state come in the order of the directories, and
/// those that state none are passed over.
pub proof fn stated_titles_come_in_order(names: Seq<Seq<char>>, last: Seq<char>)
    ensures
        candidates_among(Seq::empty()).len() == 0,
        series_candidate(last) is None ==> candidates_among(names.push(last)) == candidates_among(
            names,
        ),
        series_candidate(last) matches Some(title) ==> candidates_among(names.push(last))
            == candidates_among(names).push(title),
{
    assert(names.push(last).drop_last() =~= names);
}

/// Names of directories come in their order, clean, and what is nothing when it
/// is clean is passed over.
pub proof fn clean_names_come_in_order(parts: Seq<Seq<char>>, last: Seq<char>)
    ensures
        clean_names(Seq::empty()).len() == 0,
        group_name(last) is None ==> clean_names(parts.push(last)) == clean_names(parts),
        group_name(last) matches Some(name) ==> clean_names(parts.push(last)) == clean_names(
            parts,
        ).push(name),
{
    assert(parts.push(last).drop_last() =~= parts);
}

// ---------------------------------------------------------------------------
// Choices
// ---------------------------------------------------------------------------

/// A number at the beginning is an episode from 1 to 999, with a zero in front
/// or with nothing but technical parts behind it.
pub proof fn leading_numbers_are_chosen(digits: Seq<char>, technical: bool, n: i64)
    requires
        number_of(digits) == Some(n),
    ensures
        leading_number(digits, technical) == (if 1 <= n && n <= 999 && (technical || (digits.len()
            >= 2 && digits[0] == '0')) {
            Some(n)
        } else {
            None
        }),
{
}

/// Season and episode of the first form that tells them are taken, with what
/// stands before them; the season is the first where a form tells none, and a
/// number at the beginning has nothing before it.
pub proof fn the_first_form_is_taken(
    name: Seq<char>,
    full: Option<(Seq<char>, i64, i64)>,
    dashed: Option<(Seq<char>, i64)>,
    leading: Option<i64>,
)
    ensures
        ({
            let taken = title_part(name, full, dashed, leading);
            &&& full matches Some((before, season, episode)) ==> taken == (
                before,
                Some(season),
                Some(episode),
            )
            &&& full is None ==> (dashed matches Some((before, episode)) ==> taken == (
                before,
                Some(1i64),
                Some(episode),
            ))
            &&& full is None && dashed is None ==> (leading matches Some(episode) ==> taken.0
                == Seq::<char>::empty() && taken.1 == Some(1i64) && taken.2 == Some(episode))
            &&& full is None && dashed is None && leading is None ==> taken.0 == name && taken.1
                is None && taken.2 is None
        }),
{
}

/// A file name that can be trusted tells the series, else the directories do,
/// else the title of the file name, and else it is unknown.
pub proof fn trusted_names_come_first(
    trusted: bool,
    title: Seq<char>,
    above: Option<Seq<char>>,
)
    ensures
        ({
            let (series, source) = video_series_of(trusted, title, above);
            &&& trusted ==> series == series_name(title) && source == "filename"@
            &&& !trusted && above is Some ==> series == above->0 && source == "directory"@
            &&& !trusted && above is None && title != "未命名资源"@ ==> series == series_name(title)
                && source == "filename"@
            &&& !trusted && above is None && title == "未命名资源"@ ==> series == "未识别系列"@ && source
                == "unknown"@
        }),
{
}

/// A stored series gives way to the one of the file name only where it is a
/// date, and the other one is not blank and has another key.
pub proof fn dates_give_way(stored: Seq<char>, told: Seq<char>)
    ensures
        replaces_stored(stored, told) <==> is_generated(stored) && !is_blank(told) && title_key(
            stored,
        ) != title_key(told),
        chosen_series(Some(stored), Some(told), None, None) == (if replaces_stored(stored, told) {
            Some(told)
        } else {
            Some(stored)
        }),
{
}

/// Without a stored series the one of the file name is taken, then the title,
/// then the one of the directories.
pub proof fn the_series_is_chosen(
    stored: Option<Seq<char>>,
    told: Option<Seq<char>>,
    title: Option<Seq<char>>,
    above: Option<Seq<char>>,
)
    ensures
        stored is Some && told is None ==> chosen_series(stored, told, title, above) == stored,
        stored is Some && told is Some ==> chosen_series(stored, told, title, above)
            == chosen_series(stored, told, None, None),
        stored is None && told is Some ==> chosen_series(stored, told, title, above) == told,
        stored is None && told is None && title is Some ==> chosen_series(
            stored,
            told,
            title,
            above,
        ) == title,
        stored is None && told is None && title is None ==> chosen_series(
            stored,
            told,
            title,
            above,
        ) == above,
{
}

/// The artist comes from the tag unless that is empty, else from the file name,
/// else from the directories; album and title come from their tags first.
pub proof fn the_music_is_chosen(
    artist: Option<Seq<char>>,
    album: Option<Seq<char>>,
    title: Option<Seq<char>>,
    named: Option<(Seq<char>, Seq<char>)>,
    name_title: Option<Seq<char>>,
    above: Option<Seq<char>>,
    album_above: Option<Seq<char>>,
)
    ensures
        ({
            let told = music_of((artist, album, title), named, name_title, above, album_above);
            let is_tagged = artist is Some && artist->0.len() > 0;
            &&& is_tagged ==> told.artist == artist->0 && told.artist_source == "tag"@
            &&& !is_tagged && named is Some ==> told.artist == (named->0).0 && told.artist_source
                == "filename"@
            &&& !is_tagged && named is None && above is Some ==> told.artist == above->0
                && told.artist_source == "directory"@
            &&& !is_tagged && named is None && above is None ==> told.artist == "未知作者"@
                && told.artist_source == "unknown"@
            &&& album is Some ==> told.album == album
            &&& album is None ==> told.album == album_above
            &&& title is Some ==> told.title == title
            &&& title is None && named is Some ==> told.title == Some((named->0).1)
            &&& title is None && named is None ==> told.title == name_title
        }),
{
}

/// An artist in a file name has a letter in its key and is not the name of a
/// generic directory.
pub proof fn artists_have_letters(value: Seq<char>)
    ensures
        is_plausible_artist(value) <==> !is_generic_music(value) && exists|i: int|
            0 <= i < title_key(value).len() && alphabetic(#[trigger] title_key(value)[i]),
{
}

} // verus!
