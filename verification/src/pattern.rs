//! The patterns that names are taken apart with, and the calls into the
//! `regex` crate that match them.

use regex::Regex;
use vstd::prelude::*;

use crate::text::opt_text;

verus! {

/// `S01E02`, in any case, with separators between the two parts.
pub const SEASON_EPISODE: &'static str = r"(?i)S(\d{1,2})[\s._-]*E(\d{1,3})";

/// `1x02` behind a separator or at the beginning.
pub const SEASON_CROSS_EPISODE: &'static str = r"(?i)(?:^|[\s._-])(\d{1,2})x(\d{1,3})(?:\D|$)";

/// ` - 01`, with an optional version.
pub const DASH_EPISODE: &'static str = r"(?i)\s+-\s*(\d{1,4})(?:v\d+)?\b";

/// ` - 01 ` followed by a space, a bracket or the end.
pub const SPACED_EPISODE: &'static str = r"(?i)\s-\s(\d{1,3})(?:v\d+)?(?:\s|$|\[|\()";

/// A number between a separator and a space, a bracket or the end.
pub const LOOSE_EPISODE: &'static str = r"(?i)[\s._-](\d{1,3})(?:v\d+)?(?:\s|$|\[|\()";

/// A number at the beginning, and what follows it.
pub const LEADING_EPISODE: &'static str = r"(?i)^\s*(\d{1,3})(?:v\d+)?(?:$|([\s._\-\[\(].*)$)";

/// `[Group][Title][21]`.
pub const BRACKETED_EPISODE: &'static str =
    r"^\[([^\]]{2,40})\]\s*\[([^\]]{1,160})\]\s*\[(\d{1,4})(?:v\d+)?\]";

/// Two bracketed parts at the beginning.
pub const BRACKETED_TITLE: &'static str = r"^\[[^\]]+\]\s*\[[^\]]+\]";

/// A bracketed release group at the beginning.
pub const GROUP_PREFIX: &'static str = r"^\[([^\]]{2,40})\]";

/// The same with the space behind it.
pub const GROUP_PREFIX_SPACE: &'static str = r"^\[[^\]]{2,40}\]\s*";

/// A release group behind the last dash.
pub const GROUP_SUFFIX: &'static str = r"-([A-Za-z0-9][A-Za-z0-9._-]{1,39})$";

/// `artist - title`.
pub const ARTIST_TITLE: &'static str = r"^\s*(.+?)\s+-\s+(.+?)\s*$";

/// An order number at the beginning of a directory name.
pub const DIRECTORY_ORDER: &'static str = r"^\s*\d{1,3}\s*[-._]\s*";

/// A season, part or cour at the end of a directory name.
pub const INSTALLMENT_SUFFIX: &'static str =
    r"(?i)\s+-?\s*(?:s\d{1,3}|season\s*\d{1,3}|\d+(?:st|nd|rd|th)\s+season|part\s*\d{1,3}|cour\s*\d{1,3}|第\s*\d{1,3}\s*[季期])\s*$";

/// The key of a disc directory.
pub const DISC_KEY: &'static str = r"^(?:cd|disc|disk|vol|volume)-?\d{1,3}$";

/// The key of a season directory.
pub const SEASON_KEY: &'static str = r"^(?:s|season-?)(?:\d{1,3})$";

/// The key of an episode directory.
pub const EPISODE_KEY: &'static str =
    r"^(?:s\d{1,3}e\d{1,4}|\d{1,3}x\d{1,4}|(?:e|ep|episode)-?\d{1,4})$";

/// An episode number at the end of a title.
pub const EPISODE_SUFFIX: &'static str = r"(?i)\s+-\s*\d{1,4}(?:v\d+)?$";

/// A resolution label as a word of its own.
pub const RESOLUTION_LABEL: &'static str = r"(?i)\b(2160p|1080p|720p|480p|4k|8k)\b";

/// Resolution, source and codec tags as words of their own.
pub const RELEASE_TAG: &'static str =
    r"(?i)\b(3840x2160|1920x1080|1280x720|2160p|1080p|720p|480p|4k|8k|bd[- ]?box|web[- ]?dl|webrip|bdrip|blu[- ]?ray|bdremux|remux|hdtv|x264|x265|h\.?264|h\.?265|avc|hevc|av1|aacx\d+|aac|flac|truehd|dts|12[- ]?bit|10[- ]?bit|8[- ]?bit|hdr|dv)\b";

/// A part in round or square brackets.
pub const BRACKETED_PART: &'static str = r"[\[\(][^\]\)]*[\]\)]";

/// A dash and a source or disc, and everything behind it.
pub const TECHNICAL_SUFFIX: &'static str =
    r"(?i)\s+-\s+(?:bd[- ]?box|bd|blu[- ]?ray|dvd|web[- ]?dl|webrip|remux|disc\s*\d+|vol\.?\s*\d+).*$";

/// An opening bracket before a technical tag, and everything behind it.
pub const UNCLOSED_TECHNICAL: &'static str =
    r"(?i)\s*[\[\(](?:bd|blu[- ]?ray|dvd|web[- ]?dl|webrip|remux|hdtv|uhd|3840x2160|1920x1080|1280x720|2160p|1080p|720p|avc|hevc|x264|x265|aac|flac|dts|12[- ]?bit|10[- ]?bit).*$";

/// A match of a pattern: the text before it, and the text of each group that
/// took part in it. The first group is the whole match.
pub struct Captures {
    pub before: String,
    pub groups: Vec<Option<String>>,
}

/// A match as a value: the text before it, and the groups.
pub type Found = (Seq<char>, Seq<Option<Seq<char>>>);

impl View for Captures {
    type V = Found;

    open spec fn view(&self) -> Found {
        (self.before@, self.groups@.map_values(|g: Option<String>| opt_text(g)))
    }
}

/// The text of a group, where the pattern has it and it took part.
pub open spec fn group(found: Found, index: int) -> Option<Seq<char>> {
    if 0 <= index < found.1.len() {
        found.1[index]
    } else {
        None
    }
}

impl Captures {
    /// The text of a group, where the pattern has it and it took part.
    pub fn group(&self, index: usize) -> (r: Option<String>)
        ensures
            opt_text(r) == group(self@, index as int),
    {
        if index < self.groups.len() {
            match &self.groups[index] {
                Some(text) => Some(text.clone()),
                None => None,
            }
        } else {
            None
        }
    }
}

pub open spec fn opt_captures(value: Option<Captures>) -> Option<Found> {
    match value {
        Some(captures) => Some(captures@),
        None => None,
    }
}

/// The first match of a pattern in a text: what stands before it, and the
/// groups.
pub uninterp spec fn first_match(pattern: Seq<char>, text: Seq<char>) -> Option<
    (Seq<char>, Seq<Option<Seq<char>>>),
>;

/// Whether a pattern matches somewhere in a text.
pub uninterp spec fn matches_in(pattern: Seq<char>, text: Seq<char>) -> bool;

/// A text with the first match of a pattern replaced.
pub uninterp spec fn first_replaced(
    pattern: Seq<char>,
    text: Seq<char>,
    replacement: Seq<char>,
) -> Seq<char>;

/// A text with every match of a pattern replaced.
pub uninterp spec fn all_replaced(
    pattern: Seq<char>,
    text: Seq<char>,
    replacement: Seq<char>,
) -> Seq<char>;

/// `Regex::captures` finds the first match of a pattern. What it finds depends
/// on the pattern and the text alone; the whole match takes part in it and
/// stands in the text right behind `before`. A pattern that `Regex::new` does
/// not accept finds nothing.
#[verifier::external_body]
pub(crate) fn find(pattern: &str, text: &str) -> (r: Option<Captures>)
    ensures
        opt_captures(r) == first_match(pattern@, text@),
        r matches Some(found) ==> group(found@, 0) is Some && (found@.0 + group(
            found@,
            0,
        )->0).is_prefix_of(text@),
{
    let regex = Regex::new(pattern).ok()?;
    let captures = regex.captures(text)?;
    let start = captures.get(0)?.start();
    let groups = captures.iter().map(|group| group.map(|m| m.as_str().to_string())).collect();
    Some(Captures { before: text[..start].to_string(), groups })
}

/// `Regex::is_match` depends on the pattern and the text alone. A pattern that
/// `Regex::new` does not accept matches nothing.
#[verifier::external_body]
pub(crate) fn found_in(pattern: &str, text: &str) -> (r: bool)
    ensures
        r == matches_in(pattern@, text@),
{
    Regex::new(pattern).map(|regex| regex.is_match(text)).unwrap_or(false)
}

/// `Regex::replace` replaces the first match of a pattern. What it makes
/// depends on its arguments alone. A pattern that `Regex::new` does not accept
/// replaces nothing.
#[verifier::external_body]
pub(crate) fn replace_first(pattern: &str, text: &str, replacement: &str) -> (r: String)
    ensures
        r@ == first_replaced(pattern@, text@, replacement@),
{
    match Regex::new(pattern) {
        Ok(regex) => regex.replace(text, replacement).into_owned(),
        Err(_) => text.to_string(),
    }
}

/// `Regex::replace_all` replaces every match of a pattern. What it makes
/// depends on its arguments alone. A pattern that `Regex::new` does not accept
/// replaces nothing.
#[verifier::external_body]
pub(crate) fn replace_every(pattern: &str, text: &str, replacement: &str) -> (r: String)
    ensures
        r@ == all_replaced(pattern@, text@, replacement@),
{
    match Regex::new(pattern) {
        Ok(regex) => regex.replace_all(text, replacement).into_owned(),
        Err(_) => text.to_string(),
    }
}

} // verus!
