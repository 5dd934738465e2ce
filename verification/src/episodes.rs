//! What a file name says: release group, source, title, season and episode.

use vstd::prelude::*;

use crate::paths::{file_stem, is_plain_name, stem, stem_of_name, PathRules};
use crate::pattern::{
    find, first_match, first_replaced, found_in, group, matches_in, opt_captures, replace_first, Captures,
    Found, BRACKETED_EPISODE, BRACKETED_TITLE, DASH_EPISODE, GROUP_PREFIX, GROUP_PREFIX_SPACE,
    GROUP_SUFFIX, LEADING_EPISODE, LOOSE_EPISODE, SEASON_CROSS_EPISODE, SEASON_EPISODE,
    SPACED_EPISODE,
};
use crate::text::{
    chars_of, contains_text, has_text, number_of, opt_text, parse_number, same_text, separate,
    separated, trim_class, trim_text, trimmed, CharClass,
};
use crate::titles::{
    clean_group_name, clean_title, cleaned_title, group_name, is_generic_file,
    is_generic_filename_title, is_worded_title, normalize_series_title, says_words, series_name,
    UNNAMED,
};
use crate::unicode::uppercase;

verus! {

/// What a file name says.
pub struct ParsedName {
    pub title_guess: String,
    pub season_number: Option<i64>,
    pub episode_number: Option<i64>,
    pub source: Option<String>,
    pub release_group: Option<String>,
}

pub struct ParsedNameModel {
    pub title_guess: Seq<char>,
    pub season_number: Option<i64>,
    pub episode_number: Option<i64>,
    pub source: Option<Seq<char>>,
    pub release_group: Option<Seq<char>>,
}

impl View for ParsedName {
    type V = ParsedNameModel;

    open spec fn view(&self) -> ParsedNameModel {
        ParsedNameModel {
            title_guess: self.title_guess@,
            season_number: self.season_number,
            episode_number: self.episode_number,
            source: opt_text(self.source),
            release_group: opt_text(self.release_group),
        }
    }
}

pub open spec fn opt_parsed(value: Option<ParsedName>) -> Option<ParsedNameModel> {
    match value {
        Some(parsed) => Some(parsed@),
        None => None,
    }
}

// ---------------------------------------------------------------------------
// Season and episode
// ---------------------------------------------------------------------------

pub open spec fn opt_season_episode(value: Option<(String, i64, i64)>) -> Option<
    (Seq<char>, i64, i64),
> {
    match value {
        Some((before, season, episode)) => Some((before@, season, episode)),
        None => None,
    }
}

pub open spec fn opt_episode(value: Option<(String, i64)>) -> Option<(Seq<char>, i64)> {
    match value {
        Some((before, episode)) => Some((before@, episode)),
        None => None,
    }
}

/// The number in a group of a match.
pub open spec fn group_number(found: Found, index: int) -> Option<i64> {
    match group(found, index) {
        Some(digits) => number_of(digits),
        None => None,
    }
}

/// The text before a match, and the season and episode in its groups.
pub open spec fn season_episode_of(found: Found) -> Option<(Seq<char>, i64, i64)> {
    match (group_number(found, 1), group_number(found, 2)) {
        (Some(season), Some(episode)) => Some((found.0, season, episode)),
        _ => None,
    }
}

/// Season and episode of the first of two forms that was found.
pub open spec fn season_episode_from(lettered: Option<Found>, crossed: Option<Found>) -> Option<
    (Seq<char>, i64, i64),
> {
    match lettered {
        Some(found) => season_episode_of(found),
        None => match crossed {
            Some(found) => season_episode_of(found),
            None => None,
        },
    }
}

/// Season and episode that a name states, and what stands before them.
pub open spec fn season_episode(value: Seq<char>) -> Option<(Seq<char>, i64, i64)> {
    season_episode_from(
        first_match(SEASON_EPISODE@, value),
        first_match(SEASON_CROSS_EPISODE@, value),
    )
}

/// The episode of the first form that was found with a number from 1 to 999;
/// none where a form was found before it whose number cannot be read.
pub open spec fn anime_episode_from(forms: Seq<Option<Found>>) -> Option<(Seq<char>, i64)>
    decreases forms.len(),
{
    if forms.len() == 0 {
        None
    } else {
        match forms[0] {
            Some(found) => match group_number(found, 1) {
                Some(episode) => if 1 <= episode <= 999 {
                    Some((found.0, episode))
                } else {
                    anime_episode_from(forms.drop_first())
                },
                None => None,
            },
            None => anime_episode_from(forms.drop_first()),
        }
    }
}

/// The episode that a name states behind a dash or separator, and what stands
/// before it.
pub open spec fn anime_episode(value: Seq<char>) -> Option<(Seq<char>, i64)> {
    anime_episode_from(
        seq![
            first_match(DASH_EPISODE@, value),
            first_match(SPACED_EPISODE@, value),
            first_match(LOOSE_EPISODE@, value),
        ],
    )
}

/// The episode that a number at the beginning of a name is: one from 1 to 999,
/// with a leading zero or followed by technical tags only.
pub open spec fn leading_number(digits: Seq<char>, rest_is_technical: bool) -> Option<i64> {
    match number_of(digits) {
        Some(episode) => if 1 <= episode <= 999 && (rest_is_technical || (digits.len() > 1
            && digits[0] == '0')) {
            Some(episode)
        } else {
            None
        },
        None => None,
    }
}

/// The episode that a name begins with.
pub open spec fn leading_episode(value: Seq<char>) -> Option<i64> {
    match first_match(LEADING_EPISODE@, value) {
        Some(found) => match group(found, 1) {
            Some(digits) => leading_number(
                digits,
                cleaned_title(
                    match group(found, 2) {
                        Some(rest) => rest,
                        None => Seq::empty(),
                    },
                ) == UNNAMED@,
            ),
            None => None,
        },
        None => None,
    }
}

fn number_in_group(found: &Captures, index: usize) -> (r: Option<i64>)
    ensures
        r == group_number(found@, index as int),
{
    match found.group(index) {
        Some(digits) => parse_number(digits.as_str()),
        None => None,
    }
}

fn read_season_episode(found: &Captures) -> (r: Option<(String, i64, i64)>)
    ensures
        opt_season_episode(r) == season_episode_of(found@),
{
    match (number_in_group(found, 1), number_in_group(found, 2)) {
        (Some(season), Some(episode)) => Some((found.before.clone(), season, episode)),
        _ => None,
    }
}

/// Season and episode of the first of two forms that was found.
pub fn season_episode_from_forms(lettered: &Option<Captures>, crossed: &Option<Captures>) -> (r:
    Option<(String, i64, i64)>)
    ensures
        opt_season_episode(r) == season_episode_from(opt_captures(*lettered), opt_captures(*crossed)),
{
    match lettered {
        Some(found) => read_season_episode(found),
        None => match crossed {
            Some(found) => read_season_episode(found),
            None => None,
        },
    }
}

/// Season and episode that a name states, as `S01E02` or `1x02`, with the text
/// before them.
pub fn detect_season_episode(value: &str) -> (r: Option<(String, i64, i64)>)
    ensures
        opt_season_episode(r) == season_episode(value@),
        r matches Some((before, _, _)) ==> before@.is_prefix_of(value@),
{
    let lettered = find(SEASON_EPISODE, value);
    let crossed = find(SEASON_CROSS_EPISODE, value);
    proof {
        if lettered is Some {
            lemma_prefix_of_prefix(lettered->0@.0, group(lettered->0@, 0)->0, value@);
        }
        if crossed is Some {
            lemma_prefix_of_prefix(crossed->0@.0, group(crossed->0@, 0)->0, value@);
        }
    }
    season_episode_from_forms(&lettered, &crossed)
}

proof fn lemma_prefix_of_prefix(a: Seq<char>, b: Seq<char>, s: Seq<char>)
    requires
        (a + b).is_prefix_of(s),
    ensures
        a.is_prefix_of(s),
{
    assert forall|i: int| 0 <= i < a.len() implies a[i] == s[i] by {
        assert((a + b)[i] == s[i]);
    }
    assert(a =~= s.subrange(0, a.len() as int));
}

pub open spec fn forms_model(forms: Seq<Option<Captures>>) -> Seq<Option<Found>> {
    forms.map_values(|f: Option<Captures>| opt_captures(f))
}

/// The episode of the first form that was found with a number from 1 to 999.
pub fn anime_episode_from_forms(forms: &Vec<Option<Captures>>) -> (r: Option<(String, i64)>)
    ensures
        opt_episode(r) == anime_episode_from(forms_model(forms@)),
        r matches Some((before, episode)) ==> 1 <= episode <= 999 && exists|i: int|
            0 <= i < forms@.len() && forms@[i] is Some && before@ == (#[trigger] forms@[i])->0@.0,
{
    let ghost all = forms_model(forms@);
    let mut i: usize = 0;
    proof {
        assert(all.skip(0) =~= all);
    }
    while i < forms.len()
        invariant
            i <= forms@.len(),
            all == forms_model(forms@),
            anime_episode_from(all) == anime_episode_from(all.skip(i as int)),
        decreases forms@.len() - i,
    {
        proof {
            assert(all.skip(i as int).drop_first() =~= all.skip(i + 1));
            assert(all.skip(i as int)[0] == opt_captures(forms@[i as int]));
        }
        match &forms[i] {
            Some(found) => match number_in_group(found, 1) {
                Some(episode) => {
                    if 1 <= episode && episode <= 999 {
                        return Some((found.before.clone(), episode));
                    }
                },
                None => {
                    return None;
                },
            },
            None => {},
        }
        i += 1;
    }
    None
}

/// The episode that a name states behind a dash or separator, with the text
/// before it.
pub fn detect_anime_episode(value: &str) -> (r: Option<(String, i64)>)
    ensures
        opt_episode(r) == anime_episode(value@),
        r matches Some((before, episode)) ==> 1 <= episode <= 999 && before@.is_prefix_of(value@),
{
    let dashed = find(DASH_EPISODE, value);
    let spaced = find(SPACED_EPISODE, value);
    let loose = find(LOOSE_EPISODE, value);
    proof {
        if dashed is Some {
            lemma_prefix_of_prefix(dashed->0@.0, group(dashed->0@, 0)->0, value@);
        }
        if spaced is Some {
            lemma_prefix_of_prefix(spaced->0@.0, group(spaced->0@, 0)->0, value@);
        }
        if loose is Some {
            lemma_prefix_of_prefix(loose->0@.0, group(loose->0@, 0)->0, value@);
        }
    }
    let forms = vec![dashed, spaced, loose];
    proof {
        assert(forms_model(forms@) =~= seq![
            first_match(DASH_EPISODE@, value@),
            first_match(SPACED_EPISODE@, value@),
            first_match(LOOSE_EPISODE@, value@),
        ]);
    }
    anime_episode_from_forms(&forms)
}

/// The episode that a number at the beginning of a name is.
pub fn leading_episode_from(digits: &str, rest_is_technical: bool) -> (r: Option<i64>)
    ensures
        r == leading_number(digits@, rest_is_technical),
{
    let chars = chars_of(digits);
    match parse_number(digits) {
        Some(episode) => {
            let has_leading_zero = chars.len() > 1 && chars[0] == '0';
            if 1 <= episode && episode <= 999 && (has_leading_zero || rest_is_technical) {
                Some(episode)
            } else {
                None
            }
        },
        None => None,
    }
}

/// The episode that a name begins with.
pub fn detect_leading_episode(value: &str) -> (r: Option<i64>)
    ensures
        r == leading_episode(value@),
        r matches Some(episode) ==> 1 <= episode <= 999,
{
    match find(LEADING_EPISODE, value) {
        Some(found) => match found.group(1) {
            Some(digits) => {
                let rest = match found.group(2) {
                    Some(rest) => rest,
                    None => String::new(),
                };
                let rest_title = clean_title(rest.as_str());
                let rest_is_technical = same_text(rest_title.as_str(), UNNAMED);
                leading_episode_from(digits.as_str(), rest_is_technical)
            },
            None => None,
        },
        None => None,
    }
}

// ---------------------------------------------------------------------------
// Release group and source
// ---------------------------------------------------------------------------

/// The release group in brackets before a name, else the one behind its last
/// dash.
pub open spec fn release_group_from(before: Option<Found>, behind: Option<Found>) -> Option<
    Seq<char>,
> {
    match before {
        Some(found) => match group(found, 1) {
            Some(name) => Some(trimmed(name, CharClass::Space)),
            None => None,
        },
        None => match behind {
            Some(found) => match group(found, 1) {
                Some(name) => {
                    let cut = trimmed(name, CharClass::GroupEdge);
                    if cut.len() == 0 {
                        None
                    } else {
                        Some(cut)
                    }
                },
                None => None,
            },
            None => None,
        },
    }
}

pub open spec fn release_group_of(name: Seq<char>) -> Option<Seq<char>> {
    release_group_from(first_match(GROUP_PREFIX@, name), first_match(GROUP_SUFFIX@, name))
}

/// The release group in brackets before a name, else the one behind its last
/// dash.
pub fn release_group_from_matches(before: &Option<Captures>, behind: &Option<Captures>) -> (r:
    Option<String>)
    ensures
        opt_text(r) == release_group_from(opt_captures(*before), opt_captures(*behind)),
{
    match before {
        Some(found) => match found.group(1) {
            Some(name) => Some(trim_text(name.as_str())),
            None => None,
        },
        None => match behind {
            Some(found) => match found.group(1) {
                Some(name) => {
                    let cut = trim_class(name.as_str(), CharClass::GroupEdge);
                    if cut.as_str().is_empty() {
                        None
                    } else {
                        Some(cut)
                    }
                },
                None => None,
            },
            None => None,
        },
    }
}

/// The release group that a name states.
pub fn detect_release_group(stem: &str) -> (r: Option<String>)
    ensures
        opt_text(r) == release_group_of(stem@),
{
    let before = find(GROUP_PREFIX, stem);
    let behind = find(GROUP_SUFFIX, stem);
    release_group_from_matches(&before, &behind)
}

/// A name without the release group in brackets before it.
pub open spec fn without_group(stem: Seq<char>) -> Seq<char> {
    first_replaced(GROUP_PREFIX_SPACE@, stem, ""@)
}

/// A name without the release group in brackets before it.
pub fn strip_release_group_prefix(stem: &str) -> (r: String)
    ensures
        r@ == without_group(stem@),
{
    replace_first(GROUP_PREFIX_SPACE, stem, "")
}

/// The marks of the sources that are known, in the order in which they are
/// looked for, with their labels.
pub open spec fn sources() -> Seq<(Seq<char>, Seq<char>)> {
    seq![
        ("UHD BLURAY"@, "UHD BluRay"@),
        ("BDREMUX"@, "BD Remux"@),
        ("REMUX"@, "Remux"@),
        ("BLU RAY"@, "BluRay"@),
        ("BLURAY"@, "BluRay"@),
        ("BDRIP"@, "BDRip"@),
        ("WEB DL"@, "WEB-DL"@),
        ("WEBDL"@, "WEB-DL"@),
        ("WEBRIP"@, "WEBRip"@),
        ("HDTV"@, "HDTV"@),
        ("DVDRIP"@, "DVDRip"@),
        ("DVD"@, "DVD"@),
    ]
}

/// The label of the first mark that occurs in a text.
pub open spec fn first_source(marks: Seq<(Seq<char>, Seq<char>)>, text: Seq<char>) -> Option<
    Seq<char>,
>
    decreases marks.len(),
{
    if marks.len() == 0 {
        None
    } else if has_text(text, marks[0].0) {
        Some(marks[0].1)
    } else {
        first_source(marks.drop_first(), text)
    }
}

pub open spec fn source_of(value: Seq<char>) -> Option<Seq<char>> {
    first_source(sources(), uppercase(separated(value)))
}

pub open spec fn pairs_model(pairs: Seq<(String, String)>) -> Seq<(Seq<char>, Seq<char>)> {
    pairs.map_values(|p: (String, String)| (p.0@, p.1@))
}

fn source_list() -> (r: Vec<(String, String)>)
    ensures
        pairs_model(r@) == sources(),
{
    let r = vec![
        ("UHD BLURAY".to_string(), "UHD BluRay".to_string()),
        ("BDREMUX".to_string(), "BD Remux".to_string()),
        ("REMUX".to_string(), "Remux".to_string()),
        ("BLU RAY".to_string(), "BluRay".to_string()),
        ("BLURAY".to_string(), "BluRay".to_string()),
        ("BDRIP".to_string(), "BDRip".to_string()),
        ("WEB DL".to_string(), "WEB-DL".to_string()),
        ("WEBDL".to_string(), "WEB-DL".to_string()),
        ("WEBRIP".to_string(), "WEBRip".to_string()),
        ("HDTV".to_string(), "HDTV".to_string()),
        ("DVDRIP".to_string(), "DVDRip".to_string()),
        ("DVD".to_string(), "DVD".to_string()),
    ];
    proof {
        assert(pairs_model(r@) =~= sources());
    }
    r
}

/// The source whose mark occurs in a text in capitals.
pub fn source_from_uppercase(text: &str) -> (r: Option<String>)
    ensures
        opt_text(r) == first_source(sources(), text@),
{
    let list = source_list();
    let ghost all = pairs_model(list@);
    let mut i: usize = 0;
    proof {
        assert(all.skip(0) =~= all);
    }
    while i < list.len()
        invariant
            i <= list@.len(),
            all == pairs_model(list@),
            all == sources(),
            first_source(all, text@) == first_source(all.skip(i as int), text@),
        decreases list@.len() - i,
    {
        proof {
            assert(all.skip(i as int).drop_first() =~= all.skip(i + 1));
            assert(all.skip(i as int)[0] == (list@[i as int].0@, list@[i as int].1@));
        }
        if contains_text(text, list[i].0.as_str()) {
            return Some(list[i].1.clone());
        }
        i += 1;
    }
    None
}

/// The source that a name states.
pub fn detect_source(value: &str) -> (r: Option<String>)
    ensures
        opt_text(r) == source_of(value@),
{
    let plain = separate(value);
    let normalized = plain.as_str().to_uppercase();
    source_from_uppercase(normalized.as_str())
}

// ---------------------------------------------------------------------------
// Whole names
// ---------------------------------------------------------------------------

/// What a name of the form `[Group][Title][21]` says.
pub open spec fn bracketed_from(
    found: Option<Found>,
    fallback_release_group: Option<Seq<char>>,
    source: Option<Seq<char>>,
) -> Option<ParsedNameModel> {
    match found {
        Some(f) => match (
            match group(f, 2) {
                Some(title) => group_name(title),
                None => None,
            },
            group_number(f, 3),
        ) {
            (Some(title_guess), Some(episode)) => Some(
                ParsedNameModel {
                    title_guess,
                    season_number: Some(1),
                    episode_number: Some(episode),
                    source,
                    release_group: match group(f, 1) {
                        Some(name) => if trimmed(name, CharClass::Space).len() == 0 {
                            fallback_release_group
                        } else {
                            Some(trimmed(name, CharClass::Space))
                        },
                        None => fallback_release_group,
                    },
                },
            ),
            _ => None,
        },
        None => None,
    }
}

/// What a match of the form `[Group][Title][21]` says.
pub fn bracketed_name_from_match(
    found: &Option<Captures>,
    fallback_release_group: Option<String>,
    source: Option<String>,
) -> (r: Option<ParsedName>)
    ensures
        opt_parsed(r) == bracketed_from(
            opt_captures(*found),
            opt_text(fallback_release_group),
            opt_text(source),
        ),
{
    match found {
        Some(caps) => {
            let release_group = match caps.group(1) {
                Some(name) => {
                    let cut = trim_text(name.as_str());
                    if cut.as_str().is_empty() {
                        fallback_release_group
                    } else {
                        Some(cut)
                    }
                },
                None => fallback_release_group,
            };
            let title = match caps.group(2) {
                Some(title) => clean_group_name(title.as_str()),
                None => None,
            };
            match (title, number_in_group(caps, 3)) {
                (Some(title_guess), Some(episode)) => Some(
                    ParsedName {
                        title_guess,
                        season_number: Some(1),
                        episode_number: Some(episode),
                        source,
                        release_group,
                    },
                ),
                _ => None,
            }
        },
        None => None,
    }
}

/// What a name of the form `[Group][Title][21]` says.
pub fn parse_bracketed_anime_name(
    stem: &str,
    fallback_release_group: Option<String>,
    source: Option<String>,
) -> (r: Option<ParsedName>)
    ensures
        opt_parsed(r) == bracketed_from(
            first_match(BRACKETED_EPISODE@, stem@),
            opt_text(fallback_release_group),
            opt_text(source),
        ),
{
    let found = find(BRACKETED_EPISODE, stem);
    bracketed_name_from_match(&found, fallback_release_group, source)
}

/// The part of a name that its title is taken from, with season and episode:
/// `S01E02` before ` - 02` before a leading number; without any of them the
/// whole name.
pub open spec fn title_part(
    name: Seq<char>,
    season_episode: Option<(Seq<char>, i64, i64)>,
    anime_episode: Option<(Seq<char>, i64)>,
    leading_episode: Option<i64>,
) -> (Seq<char>, Option<i64>, Option<i64>) {
    match season_episode {
        Some((before, season, episode)) => (before, Some(season), Some(episode)),
        None => match anime_episode {
            Some((before, episode)) => (before, Some(1), Some(episode)),
            None => match leading_episode {
                Some(episode) => (Seq::empty(), Some(1), Some(episode)),
                None => (name, None, None),
            },
        },
    }
}

/// The part of a name that its title is taken from, with season and episode.
pub fn choose_title_part(
    name: &str,
    season_episode: Option<(String, i64, i64)>,
    anime_episode: Option<(String, i64)>,
    leading_episode: Option<i64>,
) -> (r: (String, Option<i64>, Option<i64>))
    ensures
        (r.0@, r.1, r.2) == title_part(
            name@,
            opt_season_episode(season_episode),
            opt_episode(anime_episode),
            leading_episode,
        ),
{
    match season_episode {
        Some((before, season, episode)) => (before, Some(season), Some(episode)),
        None => match anime_episode {
            Some((before, episode)) => (before, Some(1), Some(episode)),
            None => match leading_episode {
                Some(episode) => (String::new(), Some(1), Some(episode)),
                None => (name.to_string(), None, None),
            },
        },
    }
}

/// What the stem of a file name says.
pub open spec fn stem_says(stem: Seq<char>) -> ParsedNameModel {
    let release_group = release_group_of(stem);
    let source = source_of(stem);
    match bracketed_from(first_match(BRACKETED_EPISODE@, stem), release_group, source) {
        Some(parsed) => parsed,
        None => {
            let name = without_group(stem);
            let (title_source, season_number, episode_number) = title_part(
                name,
                season_episode(name),
                anime_episode(name),
                leading_episode(name),
            );
            ParsedNameModel {
                title_guess: cleaned_title(title_source),
                season_number,
                episode_number,
                source,
                release_group,
            }
        },
    }
}

/// What the stem of a file name says.
pub fn parse_stem(stem: &str) -> (r: ParsedName)
    ensures
        r@ == stem_says(stem@),
{
    let release_group = detect_release_group(stem);
    let source = detect_source(stem);
    if let Some(parsed) = parse_bracketed_anime_name(stem, release_group.clone(), source.clone()) {
        return parsed;
    }
    let name = strip_release_group_prefix(stem);
    let season_episode = detect_season_episode(name.as_str());
    let anime_episode = detect_anime_episode(name.as_str());
    let leading_episode = detect_leading_episode(name.as_str());
    let (title_source, season_number, episode_number) = choose_title_part(
        name.as_str(),
        season_episode,
        anime_episode,
        leading_episode,
    );
    let title_guess = clean_title(title_source.as_str());
    ParsedName { title_guess, season_number, episode_number, source, release_group }
}

/// What a file name says.
pub fn parse_name(file_name: &str, rules: PathRules) -> (r: ParsedName)
    ensures
        r@ == stem_says(stem(file_name@, rules.windows())),
        is_plain_name(file_name@) ==> r@ == stem_says(stem_of_name(file_name@)),
{
    let stem = file_stem(file_name, rules);
    parse_stem(stem.as_str())
}

/// The stem of a file name supports taking a series from it: it is of the
/// bracketed form, states an episode behind a title, or does not begin with
/// one.
pub open spec fn supports_title(stem: Seq<char>) -> bool {
    ||| matches_in(BRACKETED_TITLE@, stem)
    ||| season_episode(stem) is Some
    ||| anime_episode(stem) is Some
    ||| leading_episode(stem) is None
}

/// A title from a file name is good enough to name the series. A number is
/// not: it may be that of an episode.
pub open spec fn is_confident(stem: Seq<char>, title: Seq<char>) -> bool {
    is_worded_title(title) && !is_generic_file(title) && supports_title(stem)
}

/// Whether a title from a file name is good enough to name the series.
pub fn is_confident_filename_title(file_name: &str, title: &str, rules: PathRules) -> (r: bool)
    ensures
        r == is_confident(stem(file_name@, rules.windows()), title@),
{
    if !says_words(title) || is_generic_filename_title(title) {
        return false;
    }
    let stem = file_stem(file_name, rules);
    found_in(BRACKETED_TITLE, stem.as_str()) || detect_season_episode(stem.as_str()).is_some()
        || detect_anime_episode(stem.as_str()).is_some() || detect_leading_episode(
        stem.as_str(),
    ).is_none()
}

/// The series that the stem of a file name names.
pub open spec fn stem_series(stem: Seq<char>) -> Option<Seq<char>> {
    let title = series_name(stem_says(stem).title_guess);
    if is_confident(stem, title) {
        Some(title)
    } else {
        None
    }
}

/// The series that a file name names.
pub fn infer_series_from_file_name(file_name: &str, rules: PathRules) -> (r: Option<String>)
    ensures
        opt_text(r) == stem_series(stem(file_name@, rules.windows())),
{
    let parsed = parse_name(file_name, rules);
    let title = normalize_series_title(parsed.title_guess.as_str());
    if is_confident_filename_title(file_name, title.as_str(), rules) {
        Some(title)
    } else {
        None
    }
}

} // verus!
