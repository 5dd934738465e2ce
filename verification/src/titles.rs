//! Names and titles: how they are cleaned, compared and classified.

use vstd::prelude::*;
use vstd::string::*;

use crate::pattern::{
    all_replaced, first_replaced, found_in, matches_in, replace_every, replace_first, BRACKETED_PART,
    DISC_KEY, EPISODE_KEY, EPISODE_SUFFIX, RELEASE_TAG, SEASON_KEY, TECHNICAL_SUFFIX,
    UNCLOSED_TECHNICAL,
};
use crate::text::{
    all_ascii, all_digits, all_words, ascii_lower, ascii_upper, blank, chars_of, collapse_spaces, contains_text,
    has_text, is_among, is_ascii_digit, is_ascii_letter, is_ascii_upper, is_blank, is_digit,
    is_in_part, is_letter, is_spaced, is_upper, is_white_space, is_word, join, join_texts, joined_parts_are_found_again,
    joined_parts_are_lowered, joined_text_holds_the_parts, joined_words_are_found_again, lower_char,
    none_holds, opt_text, padded, padded_text, same_text, separate, separated, spaced, spaced_text_stays, split_on,
    split_parts, split_text_is_joined_again, split_words, swap_char, swapped, text_of, texts, to_ascii_lower, to_upper_char,
    trim_class, trimmed, trimmed_text_has_no_edges, trimmed_text_is_a_part, trimmed_text_is_empty,
    trimming_again_changes_nothing, upper_char, words, words_are_words, words_hold_the_characters, CharClass,
};
use crate::unicode::{alphanumeric, lowercase};

verus! {

/// The title of a resource whose name says nothing.
pub const UNNAMED: &'static str = "未命名资源";

/// The name of the series of a video that could not be told.
pub const UNKNOWN_SERIES: &'static str = "未识别系列";

/// The name of an artist that could not be told.
pub const UNKNOWN_ARTIST: &'static str = "未知作者";

// ---------------------------------------------------------------------------
// Keys
// ---------------------------------------------------------------------------

/// A text with a space in place of everything but letters and digits.
pub open spec fn marked(lower: Seq<char>) -> Seq<char> {
    lower.map_values(
        |c: char|
            if alphanumeric(c) {
                c
            } else {
                ' '
            },
    )
}

/// The key of a name that is in lower case already: its runs of letters and
/// digits, with a dash between neighbours.
pub open spec fn lower_key(lower: Seq<char>) -> Seq<char> {
    join(words(marked(lower)), seq!['-'])
}

/// A text has the form of a key: letters, digits and dashes, and each dash
/// stands between two characters other than dashes.
pub open spec fn is_key(s: Seq<char>) -> bool {
    &&& forall|i: int| 0 <= i < s.len() ==> s[i] == '-' || alphanumeric(#[trigger] s[i])
    &&& forall|i: int|
        0 <= i < s.len() && (#[trigger] s[i]) == '-' ==> 0 < i < s.len() - 1 && s[i - 1] != '-'
            && s[i + 1] != '-'
}

/// No character of a text is a letter or a digit.
pub open spec fn has_no_letter(s: Seq<char>) -> bool {
    forall|i: int| 0 <= i < s.len() ==> !alphanumeric(#[trigger] s[i])
}

/// The key of a name, by which names are compared.
pub open spec fn title_key(name: Seq<char>) -> Seq<char> {
    lower_key(lowercase(name))
}

/// The key of a group: its kind and the key of its name.
pub open spec fn source_key(kind: Seq<char>, name: Seq<char>) -> Seq<char> {
    let key = title_key(name);
    kind + seq![':'] + (if key.len() == 0 {
        "unknown"@
    } else {
        key
    })
}

/// The key of a name that is in lower case already.
pub fn key_from_lowercase(lower: &str) -> (r: String)
    ensures
        r@ == lower_key(lower@),
        is_key(r@),
        r@.len() == 0 <==> has_no_letter(lower@),
{
    let mut text = String::new();
    for c in it: lower.chars()
        invariant
            it.seq() == lower@,
            text@ == marked(lower@).take(it.index() as int),
    {
        let ghost n = it.index() as int;
        if c.is_alphanumeric() {
            text.push(c);
        } else {
            text.push(' ');
        }
        proof {
            assert(marked(lower@).take(n + 1) =~= marked(lower@).take(n).push(marked(lower@)[n]));
        }
    }
    proof {
        assert(marked(lower@).take(lower@.len() as int) =~= marked(lower@));
        reveal_strlit("-");
        assert("-"@ =~= seq!['-']);
        keys_have_their_form(lower@);
    }
    join_texts(&split_words(text.as_str()), "-")
}

/// The key of a name, by which names are compared: empty for a name without a
/// letter or a digit.
pub fn normalize_key(value: &str) -> (r: String)
    ensures
        r@ == title_key(value@),
        is_key(r@),
        r@.len() == 0 <==> has_no_letter(lowercase(value@)),
{
    let lower = value.to_lowercase();
    key_from_lowercase(lower.as_str())
}

proof fn lemma_join_dashes(parts: Seq<Seq<char>>)
    requires
        all_words(parts),
        none_holds(parts, '-'),
    ensures
        ({
            let s = join(parts, seq!['-']);
            &&& parts.len() > 0 ==> s.len() > 0 && s.last() != '-'
            &&& forall|i: int|
                0 <= i < s.len() && (#[trigger] s[i]) == '-' ==> 0 < i < s.len() - 1 && s[i - 1]
                    != '-' && s[i + 1] != '-'
        }),
    decreases parts.len(),
{
    let whole = join(parts, seq!['-']);
    if parts.len() == 1 {
        assert(is_word(parts[0]));
        assert forall|i: int| 0 <= i < whole.len() implies (#[trigger] whole[i]) != '-' by {
            assert(parts[0].contains(parts[0][i]));
        }
    } else if parts.len() > 1 {
        let before = parts.drop_last();
        let last = parts.last();
        assert forall|i: int| 0 <= i < before.len() implies is_word(#[trigger] before[i])
            && !before[i].contains('-') by {
            assert(before[i] == parts[i]);
            assert(is_word(parts[i]));
        }
        lemma_join_dashes(before);
        let front = join(before, seq!['-']);
        assert(is_word(parts[parts.len() - 1]));
        assert forall|i: int| 0 <= i < last.len() implies (#[trigger] last[i]) != '-' by {
            assert(parts[parts.len() - 1].contains(last[i]));
        }
        assert forall|i: int| 0 <= i < whole.len() && (#[trigger] whole[i]) == '-' implies 0 < i
            < whole.len() - 1 && whole[i - 1] != '-' && whole[i + 1] != '-' by {
            if i < front.len() {
                assert(front[i] == '-');
                assert(whole[i - 1] == front[i - 1]);
                assert(whole[i + 1] == front[i + 1]);
            } else if i > front.len() {
                assert(whole[i] == last[i - front.len() - 1]);
            } else {
                assert(whole[i - 1] == front[i - 1]);
                assert(whole[i + 1] == last[0]);
            }
        }
        assert(whole.last() == last[last.len() - 1]);
    }
}

proof fn lemma_marked_words(lower: Seq<char>, c: char)
    ensures
        is_in_part(words(marked(lower)), c) <==> lower.contains(c) && alphanumeric(c),
{
    words_hold_the_characters(marked(lower), c);
    if marked(lower).contains(c) && !is_white_space(c) {
        let i = choose|i: int| 0 <= i < lower.len() && marked(lower)[i] == c;
        assert(lower[i] == c);
    }
    if lower.contains(c) && alphanumeric(c) {
        let i = choose|i: int| 0 <= i < lower.len() && lower[i] == c;
        assert(marked(lower)[i] == c);
    }
}

/// A key consists of letters, digits and single dashes between them, and is
/// empty exactly for a text without a letter or a digit.
pub proof fn keys_have_their_form(lower: Seq<char>)
    ensures
        is_key(lower_key(lower)),
        lower_key(lower).len() == 0 <==> has_no_letter(lower),
{
    let parts = words(marked(lower));
    let key = lower_key(lower);
    words_are_words(marked(lower));
    assert forall|i: int| 0 <= i < parts.len() implies !(#[trigger] parts[i]).contains('-') by {
        lemma_marked_words(lower, '-');
    }
    lemma_join_dashes(parts);
    assert forall|i: int| 0 <= i < key.len() implies key[i] == '-' || alphanumeric(
        #[trigger] key[i],
    ) by {
        joined_text_holds_the_parts(parts, '-', key[i]);
        lemma_marked_words(lower, key[i]);
        assert(key.contains(key[i]));
    }
    if has_no_letter(lower) {
        if parts.len() > 0 {
            assert(is_word(parts[0]));
            let c = parts[0][0];
            assert(parts[0].contains(c));
            assert(is_in_part(parts, c));
            lemma_marked_words(lower, c);
            let j = choose|j: int| 0 <= j < lower.len() && lower[j] == c;
            assert(!alphanumeric(lower[j]));
        }
    } else {
        let j = choose|j: int| 0 <= j < lower.len() && alphanumeric(#[trigger] lower[j]);
        assert(lower.contains(lower[j]));
        lemma_marked_words(lower, lower[j]);
        assert(parts.len() > 0);
    }
}

/// The key of a group: its kind and the key of its name.
pub fn group_source_key(kind: &str, name: &str) -> (r: String)
    ensures
        r@ == source_key(kind@, name@),
{
    let normalized = normalize_key(name);
    let mut key = kind.to_string();
    key.push(':');
    if normalized.as_str().is_empty() {
        key.append("unknown");
    } else {
        key.append(normalized.as_str());
    }
    proof {
        assert(kind@.push(':') =~= kind@ + seq![':']);
    }
    key
}

/// The key under which an item is stored.
pub open spec fn item_key(
    title: Seq<char>,
    season_number: Option<i64>,
    episode_number: Option<i64>,
) -> Seq<char> {
    match (season_number, episode_number) {
        (Some(season), Some(episode)) => "episode:"@ + title_key(title) + ":s"@ + padded(
            season as int,
            2,
        ) + ":e"@ + padded(episode as int, 3),
        _ => "item:"@ + title_key(title),
    }
}

/// The key under which an item is stored: its title, and its season and
/// episode where both are known.
pub fn build_item_key(
    title: &str,
    season_number: Option<i64>,
    episode_number: Option<i64>,
) -> (r: String)
    ensures
        r@ == item_key(title@, season_number, episode_number),
{
    let normalized_title = normalize_key(title);
    match (season_number, episode_number) {
        (Some(season), Some(episode)) => {
            let mut key = "episode:".to_string();
            key.append(normalized_title.as_str());
            key.append(":s");
            key.append(padded_text(season, 2).as_str());
            key.append(":e");
            key.append(padded_text(episode, 3).as_str());
            key
        },
        _ => "item:".to_string().concat(normalized_title.as_str()),
    }
}

/// The key by which a directory of one kind of media is found again.
pub fn media_directory_match_key(media_kind: &str, directory_key: &str) -> (r: String)
    ensures
        r@ == media_kind@ + seq![':'] + directory_key@,
{
    let mut key = media_kind.to_string();
    key.push(':');
    proof {
        assert(key@ =~= media_kind@ + seq![':']);
    }
    key.concat(directory_key)
}

// ---------------------------------------------------------------------------
// Cleaning
// ---------------------------------------------------------------------------

/// The words of a text with one space between neighbours, and nothing at the
/// ends that cannot stand at the end of a title.
pub open spec fn tidy(s: Seq<char>) -> Seq<char> {
    trimmed(spaced(s), CharClass::TitleEdge)
}

/// A tidy title, or the title of a resource without a name.
pub open spec fn named(s: Seq<char>) -> Seq<char> {
    if tidy(s).len() == 0 {
        UNNAMED@
    } else {
        tidy(s)
    }
}

/// A name of a group, artist or directory, tidy and without underscores.
pub open spec fn group_name(value: Seq<char>) -> Option<Seq<char>> {
    let cleaned = tidy(swapped(value, '_', ' '));
    if cleaned.len() == 0 {
        None
    } else {
        Some(cleaned)
    }
}

/// A title without technical tags, brackets and loose separators.
pub open spec fn cleaned_title(value: Seq<char>) -> Seq<char> {
    let no_suffix = first_replaced(TECHNICAL_SUFFIX@, separated(value), " "@);
    let no_tags = all_replaced(RELEASE_TAG@, no_suffix, " "@);
    let no_brackets = all_replaced(BRACKETED_PART@, no_tags, " "@);
    named(first_replaced(UNCLOSED_TECHNICAL@, no_brackets, " "@))
}

/// A tag value or a line of output with its white space collapsed.
pub fn clean_metadata_value(value: &str) -> (r: String)
    ensures
        r@ == spaced(value@),
{
    collapse_spaces(value)
}

/// A tidy text.
pub fn tidy_text(value: &str) -> (r: String)
    ensures
        r@ == tidy(value@),
{
    let single = collapse_spaces(value);
    trim_class(single.as_str(), CharClass::TitleEdge)
}

/// A tidy title, or the title of a resource without a name.
pub fn name_title(value: &str) -> (r: String)
    ensures
        r@ == named(value@),
{
    let cleaned = tidy_text(value);
    if cleaned.as_str().is_empty() {
        UNNAMED.to_string()
    } else {
        cleaned
    }
}

/// A name of a group, artist or directory, tidy and without underscores.
pub fn clean_group_name(value: &str) -> (r: Option<String>)
    ensures
        opt_text(r) == group_name(value@),
{
    let plain = swap_char(value, '_', ' ');
    let cleaned = tidy_text(plain.as_str());
    if cleaned.as_str().is_empty() {
        None
    } else {
        Some(cleaned)
    }
}

/// A title without technical tags, brackets and loose separators.
pub fn clean_title(value: &str) -> (r: String)
    ensures
        r@ == cleaned_title(value@),
{
    let separated = separate(value);
    let no_technical_suffix = replace_first(TECHNICAL_SUFFIX, separated.as_str(), " ");
    let no_tags = replace_every(RELEASE_TAG, no_technical_suffix.as_str(), " ");
    let no_brackets = replace_every(BRACKETED_PART, no_tags.as_str(), " ");
    let no_unclosed_technical = replace_first(UNCLOSED_TECHNICAL, no_brackets.as_str(), " ");
    name_title(no_unclosed_technical.as_str())
}

// ---------------------------------------------------------------------------
// Case
// ---------------------------------------------------------------------------

/// Words that stay in lower case inside a title.
pub open spec fn small_words() -> Seq<Seq<char>> {
    seq![
        "a"@,
        "an"@,
        "and"@,
        "as"@,
        "at"@,
        "for"@,
        "in"@,
        "no"@,
        "of"@,
        "on"@,
        "or"@,
        "the"@,
        "to"@,
    ]
}

/// A part of a word between dashes, in title case; a small word in lower case
/// unless it belongs to the first word.
pub open spec fn canonical_part(part: Seq<char>, first: bool) -> Seq<char> {
    let lower = ascii_lower(part);
    if !first && small_words().contains(lower) {
        lower
    } else if lower.len() == 0 {
        lower
    } else {
        seq![upper_char(lower[0])] + lower.drop_first()
    }
}

/// A word is written as it is if it holds no ASCII letter or something other
/// than ASCII letters, dashes and apostrophes, or if it is a short word in
/// capitals.
pub open spec fn keeps_case(word: Seq<char>) -> bool {
    ||| forall|i: int| 0 <= i < word.len() ==> !is_letter(#[trigger] word[i])
    ||| exists|i: int|
        0 <= i < word.len() && !is_letter(#[trigger] word[i]) && word[i] != '-' && word[i] != '\''
    ||| word.len() <= 5 && forall|i: int| 0 <= i < word.len() ==> is_upper(#[trigger] word[i])
}

/// A word of a title in canonical case.
pub open spec fn canonical_word(word: Seq<char>, first: bool) -> Seq<char> {
    if keeps_case(word) {
        word
    } else {
        join(split_on(word, '-').map_values(|p: Seq<char>| canonical_part(p, first)), seq!['-'])
    }
}

/// A title in canonical case.
pub open spec fn canonical_title(value: Seq<char>) -> Seq<char> {
    join(words(value).map(|i: int, w: Seq<char>| canonical_word(w, i == 0)), seq![' '])
}

fn small_word_list() -> (r: Vec<String>)
    ensures
        texts(r@) == small_words(),
{
    let r = vec![
        "a".to_string(),
        "an".to_string(),
        "and".to_string(),
        "as".to_string(),
        "at".to_string(),
        "for".to_string(),
        "in".to_string(),
        "no".to_string(),
        "of".to_string(),
        "on".to_string(),
        "or".to_string(),
        "the".to_string(),
        "to".to_string(),
    ];
    proof {
        assert(texts(r@) =~= small_words());
    }
    r
}

fn case_part(part: &str, first: bool, small: &Vec<String>) -> (r: String)
    requires
        texts(small@) == small_words(),
    ensures
        r@ == canonical_part(part@, first),
{
    let lower = to_ascii_lower(part);
    if !first && is_among(lower.as_str(), small) {
        return lower;
    }
    let chars = chars_of(lower.as_str());
    if chars.len() == 0 {
        return lower;
    }
    let mut r = String::new();
    r.push(to_upper_char(chars[0]));
    let rest = text_of(&chars, 1, chars.len());
    proof {
        assert(r@ =~= seq![upper_char(lower@[0])]);
        assert(rest@ =~= lower@.drop_first());
    }
    r.concat(rest.as_str())
}

fn word_keeps_case(word: &str) -> (r: bool)
    ensures
        r == keeps_case(word@),
{
    let chars = chars_of(word);
    let mut letters = false;
    let mut others = false;
    let mut all_upper = true;
    let mut i: usize = 0;
    while i < chars.len()
        invariant
            i <= chars@.len(),
            letters <==> exists|j: int| 0 <= j < i && is_letter(#[trigger] chars@[j]),
            others <==> exists|j: int|
                0 <= j < i && !is_letter(#[trigger] chars@[j]) && chars@[j] != '-' && chars@[j]
                    != '\'',
            all_upper <==> forall|j: int| 0 <= j < i ==> is_upper(#[trigger] chars@[j]),
        decreases chars@.len() - i,
    {
        let c = chars[i];
        if is_ascii_letter(c) {
            letters = true;
        } else if c != '-' && c != '\'' {
            others = true;
        }
        if !is_ascii_upper(c) {
            all_upper = false;
        }
        i += 1;
    }
    !letters || others || (chars.len() <= 5 && all_upper)
}

fn case_word(word: &str, first: bool, small: &Vec<String>) -> (r: String)
    requires
        texts(small@) == small_words(),
    ensures
        r@ == canonical_word(word@, first),
{
    if word_keeps_case(word) {
        return word.to_string();
    }
    let parts = split_parts(word, '-');
    let ghost model = split_on(word@, '-').map_values(|p: Seq<char>| canonical_part(p, first));
    let mut cased: Vec<String> = Vec::new();
    let mut i: usize = 0;
    while i < parts.len()
        invariant
            i <= parts@.len(),
            texts(parts@) == split_on(word@, '-'),
            texts(small@) == small_words(),
            model == split_on(word@, '-').map_values(|p: Seq<char>| canonical_part(p, first)),
            texts(cased@) == model.take(i as int),
        decreases parts@.len() - i,
    {
        let ghost before = texts(cased@);
        let part = case_part(parts[i].as_str(), first, small);
        proof {
            assert(texts(parts@)[i as int] == parts@[i as int]@);
            assert(model.take(i + 1) =~= model.take(i as int).push(model[i as int]));
        }
        let ghost added = part@;
        cased.push(part);
        proof {
            assert(texts(cased@) =~= before.push(added));
        }
        i += 1;
    }
    proof {
        assert(texts(parts@).len() == parts@.len());
        assert(model.take(model.len() as int) =~= model);
        reveal_strlit("-");
        assert("-"@ =~= seq!['-']);
    }
    join_texts(&cased, "-")
}

/// A title in canonical case: ASCII words in title case, small words in lower
/// case, short words in capitals as they are.
pub fn canonicalize_ascii_title(value: &str) -> (r: String)
    ensures
        r@ == canonical_title(value@),
{
    let small = small_word_list();
    let parts = split_words(value);
    let ghost model = words(value@).map(|i: int, w: Seq<char>| canonical_word(w, i == 0));
    let mut cased: Vec<String> = Vec::new();
    let mut i: usize = 0;
    while i < parts.len()
        invariant
            i <= parts@.len(),
            texts(parts@) == words(value@),
            texts(small@) == small_words(),
            model == words(value@).map(|i: int, w: Seq<char>| canonical_word(w, i == 0)),
            texts(cased@) == model.take(i as int),
        decreases parts@.len() - i,
    {
        let ghost before = texts(cased@);
        let word = case_word(parts[i].as_str(), i == 0, &small);
        proof {
            assert(texts(parts@)[i as int] == parts@[i as int]@);
            assert(model.take(i + 1) =~= model.take(i as int).push(model[i as int]));
        }
        let ghost added = word@;
        cased.push(word);
        proof {
            assert(texts(cased@) =~= before.push(added));
        }
        i += 1;
    }
    proof {
        assert(texts(parts@).len() == parts@.len());
        assert(model.take(model.len() as int) =~= model);
        reveal_strlit(" ");
        assert(" "@ =~= seq![' ']);
    }
    join_texts(&cased, " ")
}

/// A title that ended in an episode number before that was replaced: tidy and
/// in canonical case.
pub open spec fn series_named(without_episode: Seq<char>) -> Seq<char> {
    let normalized = tidy(without_episode);
    if normalized.len() == 0 {
        UNNAMED@
    } else {
        canonical_title(normalized)
    }
}

/// The title of a series: cleaned, without an episode number at its end, in
/// canonical case.
pub open spec fn series_name(value: Seq<char>) -> Seq<char> {
    let cleaned = cleaned_title(value);
    if cleaned == UNNAMED@ {
        UNNAMED@
    } else {
        series_named(first_replaced(EPISODE_SUFFIX@, cleaned, " "@))
    }
}

/// A title whose episode number is gone, tidy and in canonical case.
pub fn name_series(without_episode: &str) -> (r: String)
    ensures
        r@ == series_named(without_episode@),
{
    let normalized = tidy_text(without_episode);
    if normalized.as_str().is_empty() {
        UNNAMED.to_string()
    } else {
        canonicalize_ascii_title(normalized.as_str())
    }
}

/// The title of a series: cleaned, without an episode number at its end, in
/// canonical case.
pub fn normalize_series_title(value: &str) -> (r: String)
    ensures
        r@ == series_name(value@),
{
    let cleaned = clean_title(value);
    if same_text(cleaned.as_str(), UNNAMED) {
        return cleaned;
    }
    let without_episode = replace_first(EPISODE_SUFFIX, cleaned.as_str(), " ");
    name_series(without_episode.as_str())
}

// ---------------------------------------------------------------------------
// Classification
// ---------------------------------------------------------------------------

/// A key is a number of an episode: up to three digits.
pub open spec fn is_number_key(key: Seq<char>) -> bool {
    all_digits(key) && key.len() <= 3
}

/// A title says something, given its key: it is neither the placeholder nor
/// the number of an episode or a date. Other numbers are titles, as `1917` is.
pub open spec fn tells_title(value: Seq<char>, key: Seq<char>) -> bool {
    value != UNNAMED@ && key != "unknown"@ && key.len() > 0 && !is_number_key(key) && !is_date_key(
        key,
    )
}

pub open spec fn is_title(value: Seq<char>) -> bool {
    tells_title(value, title_key(value))
}

/// A title says something, and not by a number alone. A number in a file name
/// may be that of an episode.
pub open spec fn is_worded_title(value: Seq<char>) -> bool {
    is_title(value) && !all_digits(title_key(value))
}

/// Keys of file names that say only what kind of extra a file is.
pub open spec fn generic_file_keys() -> Seq<Seq<char>> {
    seq![
        "episode"@,
        "ep"@,
        "special"@,
        "specials"@,
        "sp"@,
        "ova"@,
        "oad"@,
        "ncop"@,
        "nced"@,
        "op"@,
        "ed"@,
        "pv"@,
        "cm"@,
        "trailer"@,
        "preview"@,
        "sample"@,
        "menu"@,
        "bonus"@,
        "extra"@,
        "extras"@,
    ]
}

/// Keys of directories that hold music without being an artist or album.
pub open spec fn generic_music_keys() -> Seq<Seq<char>> {
    seq!["ost"@, "music"@, "audio"@, "songs"@, "soundtrack"@, "soundtracks"@, "cd"@, "disc"@]
}

/// Keys of directories that hold videos without being a series.
pub open spec fn generic_video_keys() -> Seq<Seq<char>> {
    seq![
        "season"@,
        "season-1"@,
        "season-01"@,
        "extras"@,
        "extra"@,
        "specials"@,
        "ova"@,
        "oad"@,
        "sp"@,
        "subs"@,
        "subtitle"@,
        "subtitles"@,
        "bdmv"@,
        "stream"@,
        "video"@,
        "videos"@,
        "anime"@,
        "animation"@,
        "tv"@,
        "tv-series"@,
        "series"@,
        "movie"@,
        "movies"@,
    ]
}

pub open spec fn is_generic_file(value: Seq<char>) -> bool {
    generic_file_keys().contains(title_key(value))
}

pub open spec fn is_generic_music(value: Seq<char>) -> bool {
    matches_in(DISC_KEY@, title_key(value)) || generic_music_keys().contains(title_key(value))
}

pub open spec fn is_generic_video(value: Seq<char>) -> bool {
    let key = title_key(value);
    ||| matches_in(SEASON_KEY@, key)
    ||| matches_in(DISC_KEY@, key)
    ||| matches_in(EPISODE_KEY@, key)
    ||| generic_video_keys().contains(key)
}

/// A key is a date written in six or eight digits.
pub open spec fn is_date_key(key: Seq<char>) -> bool {
    all_digits(key) && (key.len() == 6 || key.len() == 8)
}

pub open spec fn is_generated(value: Seq<char>) -> bool {
    is_date_key(title_key(value))
}

/// Whether a text consists of ASCII digits.
pub fn only_digits(s: &str) -> (r: bool)
    ensures
        r == all_digits(s@),
{
    let chars = chars_of(s);
    let mut i: usize = 0;
    while i < chars.len()
        invariant
            i <= chars@.len(),
            chars@ == s@,
            forall|j: int| 0 <= j < i ==> is_digit(#[trigger] chars@[j]),
        decreases chars@.len() - i,
    {
        if !is_ascii_digit(chars[i]) {
            return false;
        }
        i += 1;
    }
    true
}

/// Whether a key is a number of an episode.
pub fn is_episode_key(key: &str) -> (r: bool)
    ensures
        r == is_number_key(key@),
{
    only_digits(key) && chars_of(key).len() <= 3
}

/// Whether a title with this key says something.
pub fn title_says(value: &str, key: &str) -> (r: bool)
    ensures
        r == tells_title(value@, key@),
{
    !same_text(value, UNNAMED) && !same_text(key, "unknown") && !key.is_empty() && !is_episode_key(
        key,
    ) && !is_generated_key(key)
}

/// Whether a title says something.
pub fn is_detected_title(value: &str) -> (r: bool)
    ensures
        r == is_title(value@),
{
    let key = normalize_key(value);
    title_says(value, key.as_str())
}

/// Whether a title says something, and not by a number alone.
pub fn says_words(value: &str) -> (r: bool)
    ensures
        r == is_worded_title(value@),
{
    let key = normalize_key(value);
    title_says(value, key.as_str()) && !only_digits(key.as_str())
}

/// Whether a key belongs to a file name that says only what kind of extra a
/// file is.
pub fn is_generic_file_key(key: &str) -> (r: bool)
    ensures
        r == generic_file_keys().contains(key@),
{
    let list = vec![
        "episode".to_string(),
        "ep".to_string(),
        "special".to_string(),
        "specials".to_string(),
        "sp".to_string(),
        "ova".to_string(),
        "oad".to_string(),
        "ncop".to_string(),
        "nced".to_string(),
        "op".to_string(),
        "ed".to_string(),
        "pv".to_string(),
        "cm".to_string(),
        "trailer".to_string(),
        "preview".to_string(),
        "sample".to_string(),
        "menu".to_string(),
        "bonus".to_string(),
        "extra".to_string(),
        "extras".to_string(),
    ];
    proof {
        assert(texts(list@) =~= generic_file_keys());
    }
    is_among(key, &list)
}

/// Whether a title from a file name says only what kind of extra a file is.
pub fn is_generic_filename_title(value: &str) -> (r: bool)
    ensures
        r == is_generic_file(value@),
{
    let key = normalize_key(value);
    is_generic_file_key(key.as_str())
}

/// Whether a key belongs to a directory that holds music without being an
/// artist or album, other than a disc.
pub fn is_generic_music_key(key: &str) -> (r: bool)
    ensures
        r == generic_music_keys().contains(key@),
{
    let list = vec![
        "ost".to_string(),
        "music".to_string(),
        "audio".to_string(),
        "songs".to_string(),
        "soundtrack".to_string(),
        "soundtracks".to_string(),
        "cd".to_string(),
        "disc".to_string(),
    ];
    proof {
        assert(texts(list@) =~= generic_music_keys());
    }
    is_among(key, &list)
}

/// Whether a directory holds music without being an artist or album.
pub fn is_generic_music_directory(value: &str) -> (r: bool)
    ensures
        r == is_generic_music(value@),
{
    let key = normalize_key(value);
    found_in(DISC_KEY, key.as_str()) || is_generic_music_key(key.as_str())
}

/// Whether a key belongs to a directory that holds videos without being a
/// series, other than a season, disc or episode.
pub fn is_generic_video_key(key: &str) -> (r: bool)
    ensures
        r == generic_video_keys().contains(key@),
{
    let list = vec![
        "season".to_string(),
        "season-1".to_string(),
        "season-01".to_string(),
        "extras".to_string(),
        "extra".to_string(),
        "specials".to_string(),
        "ova".to_string(),
        "oad".to_string(),
        "sp".to_string(),
        "subs".to_string(),
        "subtitle".to_string(),
        "subtitles".to_string(),
        "bdmv".to_string(),
        "stream".to_string(),
        "video".to_string(),
        "videos".to_string(),
        "anime".to_string(),
        "animation".to_string(),
        "tv".to_string(),
        "tv-series".to_string(),
        "series".to_string(),
        "movie".to_string(),
        "movies".to_string(),
    ];
    proof {
        assert(texts(list@) =~= generic_video_keys());
    }
    is_among(key, &list)
}

/// Whether a directory holds videos without being a series.
pub fn is_generic_video_directory(value: &str) -> (r: bool)
    ensures
        r == is_generic_video(value@),
{
    let key = normalize_key(value);
    found_in(SEASON_KEY, key.as_str()) || found_in(DISC_KEY, key.as_str()) || found_in(
        EPISODE_KEY,
        key.as_str(),
    ) || is_generic_video_key(key.as_str())
}

/// Whether a key is a date written in six or eight digits.
pub fn is_generated_key(key: &str) -> (r: bool)
    ensures
        r == is_date_key(key@),
{
    let size = chars_of(key).len();
    only_digits(key) && (size == 6 || size == 8)
}

/// Whether a directory is named by a date.
pub fn is_generated_directory_title(value: &str) -> (r: bool)
    ensures
        r == is_generated(value@),
{
    let key = normalize_key(value);
    is_generated_key(key.as_str())
}

/// The series of a file name takes the place of a stored one.
pub open spec fn replaces_stored(stored_series: Seq<char>, filename_series: Seq<char>) -> bool {
    &&& !is_blank(filename_series)
    &&& title_key(stored_series) != title_key(filename_series)
    &&& is_generated(stored_series)
}

/// Whether the series of a file name takes the place of a stored one: only
/// where the stored one is a date and another.
pub fn should_replace_stored_series(stored_series: &str, filename_series: &str) -> (r: bool)
    ensures
        r == replaces_stored(stored_series@, filename_series@),
{
    !blank(filename_series) && normalize_key(stored_series) != normalize_key(filename_series)
        && is_generated_directory_title(stored_series)
}

/// The family of a series, by its key alone.
pub open spec fn key_family(key: Seq<char>) -> Option<Seq<char>> {
    if key != "monogatari"@ && has_text(key, "monogatari"@) {
        Some("Monogatari"@)
    } else {
        None
    }
}

/// The family of a series with this key.
pub fn family_from_key(key: &str) -> (r: Option<String>)
    ensures
        opt_text(r) == key_family(key@),
{
    if !same_text(key, "monogatari") && contains_text(key, "monogatari") {
        Some("Monogatari".to_string())
    } else {
        None
    }
}

/// The family of a series that its title tells.
pub fn infer_series_family_title(series: &str) -> (r: Option<String>)
    ensures
        opt_text(r) == key_family(title_key(series@)),
{
    let key = normalize_key(series);
    family_from_key(key.as_str())
}

// ---------------------------------------------------------------------------
// Labels
// ---------------------------------------------------------------------------

/// The label of the source that an artist was taken from.
pub open spec fn artist_source_label(source: Seq<char>) -> Seq<char> {
    if source == "tag"@ {
        "标签"@
    } else if source == "directory"@ {
        "目录"@
    } else if source == "filename"@ {
        "文件名"@
    } else {
        "未知来源"@
    }
}

/// The label of the source that a series was taken from.
pub open spec fn series_label(source: Seq<char>) -> Seq<char> {
    if source == "filename"@ {
        "文件名"@
    } else if source == "directory"@ {
        "目录"@
    } else {
        "未知来源"@
    }
}

/// The label of the source that an artist was taken from.
pub fn music_artist_source_label(source: &str) -> (r: String)
    ensures
        r@ == artist_source_label(source@),
{
    if same_text(source, "tag") {
        "标签".to_string()
    } else if same_text(source, "directory") {
        "目录".to_string()
    } else if same_text(source, "filename") {
        "文件名".to_string()
    } else {
        "未知来源".to_string()
    }
}

/// The label of the source that a series was taken from.
pub fn series_source_label(source: &str) -> (r: String)
    ensures
        r@ == series_label(source@),
{
    if same_text(source, "filename") {
        "文件名".to_string()
    } else if same_text(source, "directory") {
        "目录".to_string()
    } else {
        "未知来源".to_string()
    }
}

// ---------------------------------------------------------------------------
// Laws
// ---------------------------------------------------------------------------

/// A tidy text neither begins nor ends with a dash, a dot, an underscore or a
/// space.
pub proof fn tidy_text_has_no_edges(s: Seq<char>)
    ensures
        tidy(s).len() > 0 ==> !CharClass::TitleEdge.has(tidy(s)[0]) && !CharClass::TitleEdge.has(
            tidy(s).last(),
        ),
{
    crate::text::trimmed_text_has_no_edges(spaced(s), CharClass::TitleEdge);
}

/// A cleaned title is never empty: without a name it is that of a resource
/// without one.
pub proof fn titles_are_never_empty(value: Seq<char>)
    ensures
        cleaned_title(value).len() > 0,
        group_name(value) matches Some(name) ==> name.len() > 0,
{
    reveal_strlit("未命名资源");
}

/// Names with the same key have the same group key, whatever their kind.
pub proof fn same_key_means_same_group(kind: Seq<char>, a: Seq<char>, b: Seq<char>)
    requires
        title_key(a) == title_key(b),
    ensures
        source_key(kind, a) == source_key(kind, b),
{
}

/// Groups of different kinds have different keys, where the kinds have no
/// colon in them.
pub proof fn kinds_keep_groups_apart(
    kind: Seq<char>,
    other: Seq<char>,
    a: Seq<char>,
    b: Seq<char>,
)
    requires
        !kind.contains(':'),
        !other.contains(':'),
        source_key(kind, a) == source_key(other, b),
    ensures
        kind == other,
{
    let key = source_key(kind, a);
    assert(key[kind.len() as int] == ':');
    assert(source_key(other, b)[other.len() as int] == ':');
    if kind.len() < other.len() {
        assert(other[kind.len() as int] == key[kind.len() as int]);
        assert(other.contains(':'));
    }
    if other.len() < kind.len() {
        assert(kind[other.len() as int] == key[other.len() as int]);
        assert(kind.contains(':'));
    }
    assert forall|i: int| 0 <= i < kind.len() implies kind[i] == other[i] by {
        assert(kind[i] == key[i]);
        assert(other[i] == source_key(other, b)[i]);
    }
    assert(kind =~= other);
}

/// Of the numbers, those of episodes and dates are no titles, and all others
/// are.
pub proof fn numbers_are_titles(value: Seq<char>, key: Seq<char>)
    requires
        all_digits(key),
        value != UNNAMED@,
    ensures
        tells_title(value, key) <==> key.len() >= 4 && key.len() != 6 && key.len() != 8,
{
    reveal_strlit("unknown");
    if key == "unknown"@ {
        assert(is_digit(key[0]));
    }
}

proof fn lemma_marked_again(parts: Seq<Seq<char>>)
    requires
        forall|i: int, j: int|
            0 <= i < parts.len() && 0 <= j < parts[i].len() ==> alphanumeric(
                #[trigger] parts[i][j],
            ),
    ensures
        marked(join(parts, seq!['-'])) == join(parts, seq![' ']),
    decreases parts.len(),
{
    let whole = join(parts, seq!['-']);
    if parts.len() == 0 {
        assert(marked(whole) =~= Seq::empty());
    } else if parts.len() == 1 {
        assert(marked(whole) =~= parts[0]);
    } else {
        let before = parts.drop_last();
        assert forall|i: int, j: int|
            0 <= i < before.len() && 0 <= j < before[i].len() implies alphanumeric(
            #[trigger] before[i][j],
        ) by {
            assert(before[i][j] == parts[i][j]);
        }
        lemma_marked_again(before);
        let front = join(before, seq!['-']);
        let last = parts[parts.len() - 1];
        assert forall|j: int| 0 <= j < last.len() implies alphanumeric(#[trigger] last[j]) by {
            assert(alphanumeric(parts[parts.len() - 1][j]));
        }
        assert(marked(whole) =~= marked(front) + seq![' '] + last);
    }
}

/// A key of an ASCII name is its own key: making a key of it again changes
/// nothing. So is every other key that is in lower case.
pub proof fn keys_are_their_own_keys(name: Seq<char>)
    ensures
        lower_key(lower_key(name)) == lower_key(name),
        all_ascii(name) || lowercase(title_key(name)) == title_key(name) ==> title_key(
            title_key(name),
        ) == title_key(name),
{
    lemma_key_again(name);
    lemma_key_again(lowercase(name));
    if all_ascii(name) {
        reveal(lowercase);
        let lower = ascii_lower(name);
        let key = lower_key(lower);
        let parts = words(marked(lower));
        assert forall|i: int| 0 <= i < key.len() implies (#[trigger] key[i] as u32) < 0x80
            && lower_char(key[i]) == key[i] by {
            assert(key.contains(key[i]));
            joined_text_holds_the_parts(parts, '-', key[i]);
            if key[i] != '-' {
                lemma_marked_words(lower, key[i]);
                let j = choose|j: int| 0 <= j < lower.len() && lower[j] == key[i];
                assert(lower[j] == lower_char(name[j]));
            }
        }
        assert(all_ascii(key));
        assert(ascii_lower(key) =~= key);
    }
}

/// ASCII names that differ in case alone have the same key.
pub proof fn case_does_not_matter(a: Seq<char>, b: Seq<char>)
    requires
        all_ascii(a),
        ascii_lower(a) == ascii_lower(b),
    ensures
        title_key(a) == title_key(b),
        title_key(ascii_upper(a)) == title_key(a),
{
    reveal(lowercase);
    assert(a.len() == ascii_lower(a).len() && b.len() == ascii_lower(b).len());
    assert forall|i: int| 0 <= i < b.len() implies (#[trigger] b[i] as u32) < 0x80 by {
        assert(ascii_lower(a)[i] == lower_char(a[i]));
        assert(ascii_lower(b)[i] == lower_char(b[i]));
        assert((a[i] as u32) < 0x80);
    }
    let upper = ascii_upper(a);
    assert forall|i: int| 0 <= i < upper.len() implies (#[trigger] upper[i] as u32) < 0x80
        && lower_char(upper[i]) == lower_char(a[i]) by {
        assert((a[i] as u32) < 0x80);
    }
    assert(ascii_lower(upper) =~= ascii_lower(a));
}

proof fn lemma_key_again(lower: Seq<char>)
    ensures
        lower_key(lower_key(lower)) == lower_key(lower),
{
    let parts = words(marked(lower));
    words_are_words(marked(lower));
    assert forall|i: int, j: int|
        0 <= i < parts.len() && 0 <= j < parts[i].len() implies alphanumeric(
        #[trigger] parts[i][j],
    ) by {
        assert(parts[i].contains(parts[i][j]));
        assert(is_in_part(parts, parts[i][j]));
        lemma_marked_words(lower, parts[i][j]);
    }
    lemma_marked_again(parts);
    joined_words_are_found_again(parts);
}

proof fn lemma_canonical_part(part: Seq<char>, first: bool)
    requires
        !part.contains('-'),
    ensures
        ascii_lower(canonical_part(part, first)) == ascii_lower(part),
        canonical_part(canonical_part(part, first), first) == canonical_part(part, first),
        !canonical_part(part, first).contains('-'),
{
    let made = canonical_part(part, first);
    assert(ascii_lower(made) =~= ascii_lower(part));
    if made.contains('-') {
        let i = choose|i: int| 0 <= i < made.len() && made[i] == '-';
        assert(lower_char(made[i]) == ascii_lower(part)[i]);
        assert(part[i] == '-');
    }
}

proof fn lemma_canonical_word(word: Seq<char>, first: bool)
    requires
        is_word(word),
    ensures
        is_word(canonical_word(word, first)),
        ascii_lower(canonical_word(word, first)) == ascii_lower(word),
        canonical_word(canonical_word(word, first), first) == canonical_word(word, first),
{
    if !keeps_case(word) {
        let parts = split_on(word, '-');
        let cased = parts.map_values(|p: Seq<char>| canonical_part(p, first));
        let made = canonical_word(word, first);
        split_text_is_joined_again(word, '-');
        assert forall|i: int| 0 <= i < parts.len() implies {
            &&& ascii_lower(#[trigger] cased[i]) == ascii_lower(parts[i])
            &&& canonical_part(cased[i], first) == cased[i]
            &&& !cased[i].contains('-')
        } by {
            assert(!parts[i].contains('-'));
            lemma_canonical_part(parts[i], first);
        }
        joined_parts_are_lowered(parts, '-');
        joined_parts_are_lowered(cased, '-');
        assert(parts.map_values(|p: Seq<char>| ascii_lower(p)) =~= cased.map_values(
            |p: Seq<char>| ascii_lower(p),
        ));
        assert(ascii_lower(made).len() == ascii_lower(word).len());
        assert forall|i: int| 0 <= i < made.len() implies !is_white_space(#[trigger] made[i]) by {
            assert(ascii_lower(made)[i] == ascii_lower(word)[i]);
            assert(!is_white_space(word[i]));
        }
        joined_parts_are_found_again(cased, '-');
        assert(split_on(made, '-').map_values(|p: Seq<char>| canonical_part(p, first)) =~= cased);
    }
}

/// A title in canonical case stays as it is when it is put in this case again.
/// What changes is white space and the case of ASCII letters alone, and a word
/// with anything but ASCII letters, dashes and apostrophes stays as it is.
pub proof fn canonical_titles_stay(value: Seq<char>)
    ensures
        canonical_title(canonical_title(value)) == canonical_title(value),
        ascii_lower(canonical_title(value)) == ascii_lower(spaced(value)),
        words(canonical_title(value)).len() == words(value).len(),
        forall|i: int|
            0 <= i < words(value).len() && keeps_case(#[trigger] words(value)[i]) ==> words(
                canonical_title(value),
            )[i] == words(value)[i],
        forall|i: int, j: int|
            0 <= i < words(value).len() && 0 <= j < words(value)[i].len() && !is_letter(
                #[trigger] words(value)[i][j],
            ) && words(value)[i][j] != '-' && words(value)[i][j] != '\'' ==> words(
                canonical_title(value),
            )[i] == words(value)[i],
{
    let parts = words(value);
    let cased = parts.map(|i: int, w: Seq<char>| canonical_word(w, i == 0));
    words_are_words(value);
    assert forall|i: int| 0 <= i < parts.len() implies {
        &&& is_word(#[trigger] cased[i])
        &&& ascii_lower(cased[i]) == ascii_lower(parts[i])
        &&& canonical_word(cased[i], i == 0) == cased[i]
    } by {
        assert(is_word(parts[i]));
        lemma_canonical_word(parts[i], i == 0);
    }
    joined_words_are_found_again(cased);
    assert(cased.map(|i: int, w: Seq<char>| canonical_word(w, i == 0)) =~= cased);
    joined_parts_are_lowered(parts, ' ');
    joined_parts_are_lowered(cased, ' ');
    assert(parts.map_values(|p: Seq<char>| ascii_lower(p)) =~= cased.map_values(
        |p: Seq<char>| ascii_lower(p),
    ));
    assert forall|i: int, j: int|
        0 <= i < parts.len() && 0 <= j < parts[i].len() && !is_letter(#[trigger] parts[i][j])
            && parts[i][j] != '-' && parts[i][j] != '\'' implies cased[i] == parts[i] by {
        assert(keeps_case(parts[i]));
    }
}

proof fn lemma_tidy(s: Seq<char>)
    ensures
        is_spaced(tidy(s)),
        tidy(tidy(s)) == tidy(s),
        tidy(s).len() == 0 <==> forall|i: int|
            0 <= i < s.len() ==> is_white_space(#[trigger] s[i]) || CharClass::TitleEdge.has(s[i]),
{
    let single = spaced(s);
    let made = tidy(s);
    spaced_text_stays(s);
    let from = trimmed_text_is_a_part(single, CharClass::TitleEdge);
    trimmed_text_has_no_edges(single, CharClass::TitleEdge);
    assert forall|i: int| 0 <= i < made.len() && is_white_space(#[trigger] made[i]) implies made[i]
        == ' ' && i > 0 && !is_white_space(made[i - 1]) by {
        assert(made[i] == single[from + i]);
        assert(single[from + i] == ' ');
        if i > 0 {
            assert(made[i - 1] == single[from + i - 1]);
        }
    }
    if made.len() > 0 && is_white_space(made.last()) {
        assert(made[made.len() - 1] == ' ');
    }
    spaced_text_stays(made);
    trimming_again_changes_nothing(single, CharClass::TitleEdge);
    trimmed_text_is_empty(single, CharClass::TitleEdge);
    if made.len() == 0 {
        assert forall|i: int| 0 <= i < s.len() implies is_white_space(#[trigger] s[i])
            || CharClass::TitleEdge.has(s[i]) by {
            if !is_white_space(s[i]) {
                assert(s.contains(s[i]));
                words_hold_the_characters(s, s[i]);
                joined_text_holds_the_parts(words(s), ' ', s[i]);
                let j = choose|j: int| 0 <= j < single.len() && single[j] == s[i];
                assert(CharClass::TitleEdge.has(single[j]));
            }
        }
    } else if forall|i: int|
        0 <= i < s.len() ==> is_white_space(#[trigger] s[i]) || CharClass::TitleEdge.has(s[i]) {
        let j = choose|j: int|
            0 <= j < single.len() && !CharClass::TitleEdge.has(#[trigger] single[j]);
        let c = single[j];
        assert(single.contains(c));
        joined_text_holds_the_parts(words(s), ' ', c);
        words_hold_the_characters(s, c);
        let i = choose|i: int| 0 <= i < s.len() && s[i] == c;
        assert(is_white_space(s[i]) || CharClass::TitleEdge.has(s[i]));
    }
}

/// A clean name is its own clean name: single-spaced, without underscores, and
/// without a dash, a dot or a space at its ends. A value has none exactly if it
/// consists of white space, dashes, dots and underscores.
pub proof fn clean_names_stay(value: Seq<char>)
    ensures
        group_name(value) is None <==> forall|i: int|
            0 <= i < value.len() ==> is_white_space(#[trigger] value[i])
                || CharClass::TitleEdge.has(value[i]),
        group_name(value) matches Some(name) ==> {
            &&& group_name(name) == Some(name)
            &&& is_spaced(name)
            &&& !name.contains('_')
            &&& !CharClass::TitleEdge.has(name[0])
            &&& !CharClass::TitleEdge.has(name.last())
        },
{
    let plain = swapped(value, '_', ' ');
    lemma_tidy(plain);
    tidy_text_has_no_edges(plain);
    assert forall|i: int| 0 <= i < value.len() implies (is_white_space(#[trigger] value[i])
        || CharClass::TitleEdge.has(value[i])) == (is_white_space(plain[i])
        || CharClass::TitleEdge.has(plain[i])) by {
    }
    if tidy(plain).len() == 0 {
        assert forall|i: int| 0 <= i < value.len() implies is_white_space(#[trigger] value[i])
            || CharClass::TitleEdge.has(value[i]) by {
            assert(is_white_space(plain[i]) || CharClass::TitleEdge.has(plain[i]));
        }
    } else {
        let i = choose|i: int|
            0 <= i < plain.len() && !(is_white_space(#[trigger] plain[i])
                || CharClass::TitleEdge.has(plain[i]));
        assert(!(is_white_space(value[i]) || CharClass::TitleEdge.has(value[i])));
        let name = tidy(plain);
        let single = spaced(plain);
        let from = trimmed_text_is_a_part(single, CharClass::TitleEdge);
        if name.contains('_') {
            let j = choose|j: int| 0 <= j < name.len() && name[j] == '_';
            assert(single[from + j] == '_');
            assert(single.contains('_'));
            joined_text_holds_the_parts(words(plain), ' ', '_');
            words_hold_the_characters(plain, '_');
            let k = choose|k: int| 0 <= k < plain.len() && plain[k] == '_';
            assert(value[k] == '_');
        }
        assert(swapped(name, '_', ' ') =~= name) by {
            assert forall|j: int| 0 <= j < name.len() implies name[j] != '_' by {
                assert(name.contains(name[j]));
            }
        }
    }
}

} // verus!
