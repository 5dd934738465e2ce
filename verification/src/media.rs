//! Media files: their kind, codecs, resolution and duration.

use vstd::prelude::*;
use vstd::string::*;

use crate::paths::{audio_extensions, has_extension, is_audio_file_name, PathRules};
use crate::pattern::{find, first_match, group, Found, RESOLUTION_LABEL};
use crate::text::{decimal, decimal_text, opt_text, same_text};

verus! {

/// A duration in seconds, as the bits of a 64-bit floating-point number.
#[derive(Clone, Copy)]
pub struct Seconds {
    pub bits: u64,
}

/// The bits of 300.0: videos shorter than five minutes are left out.
pub const MIN_VIDEO_SECONDS_BITS: u64 = 0x4072_c000_0000_0000;

/// The bits of infinity; larger ones without the sign are not a number.
pub const INFINITY_BITS: u64 = 0x7ff0_0000_0000_0000;

/// The bit that is set in negative numbers.
pub const SIGN_BIT: u64 = 0x8000_0000_0000_0000;

/// A duration is a number below five minutes. Numbers of one sign are ordered
/// as their bits are.
pub open spec fn is_short(duration: Seconds) -> bool {
    if duration.bits >= SIGN_BIT {
        duration.bits - SIGN_BIT <= INFINITY_BITS
    } else {
        duration.bits < MIN_VIDEO_SECONDS_BITS
    }
}

/// Whether a duration is a number below five minutes.
pub fn is_below_minimum(duration: Seconds) -> (r: bool)
    ensures
        r == is_short(duration),
{
    if duration.bits >= SIGN_BIT {
        duration.bits - SIGN_BIT <= INFINITY_BITS
    } else {
        duration.bits < MIN_VIDEO_SECONDS_BITS
    }
}

/// A media file as the index holds it.
pub struct ResourceVariant {
    pub id: i64,
    pub path: String,
    pub file_name: String,
    pub root_path: String,
    pub file_size: i64,
    pub duration_seconds: Option<Seconds>,
    pub container: Option<String>,
    pub video_codec: Option<String>,
    pub audio_codec: Option<String>,
    pub width: Option<i64>,
    pub height: Option<i64>,
    pub resolution: Option<String>,
    pub source: Option<String>,
    pub release_group: Option<String>,
    pub season_number: Option<i64>,
    pub episode_number: Option<i64>,
    pub title_guess: String,
    pub media_kind: String,
    pub music_artist: Option<String>,
    pub music_album: Option<String>,
    pub music_title: Option<String>,
    pub music_artist_source: Option<String>,
    pub series_title: Option<String>,
    pub series_source: Option<String>,
}

/// The kind of a file: an audio file is music if it has an audio stream;
/// another is video if it has a picture, else music if it has sound.
pub open spec fn kind_of(audio_name: bool, has_picture: bool, has_sound: bool) -> Option<
    Seq<char>,
> {
    if audio_name {
        if has_sound {
            Some("music"@)
        } else {
            None
        }
    } else if has_picture {
        Some("video"@)
    } else if has_sound {
        Some("music"@)
    } else {
        None
    }
}

/// The kind of a file, by its extension and its streams.
pub open spec fn file_kind(file: ResourceVariant, windows: bool) -> Option<Seq<char>> {
    kind_of(
        has_extension(file.file_name@, audio_extensions(), windows),
        file.video_codec is Some || file.width is Some || file.height is Some,
        file.audio_codec is Some,
    )
}

/// The kind of a file.
pub fn choose_media_kind(audio_name: bool, has_picture: bool, has_sound: bool) -> (r: Option<String>)
    ensures
        opt_text(r) == kind_of(audio_name, has_picture, has_sound),
{
    if audio_name {
        if has_sound {
            Some("music".to_string())
        } else {
            None
        }
    } else if has_picture {
        Some("video".to_string())
    } else if has_sound {
        Some("music".to_string())
    } else {
        None
    }
}

/// The kind of a file, by its extension and its streams.
pub fn media_kind_for_file(file: &ResourceVariant, rules: PathRules) -> (r: Option<String>)
    ensures
        opt_text(r) == file_kind(*file, rules.windows()),
{
    choose_media_kind(
        is_audio_file_name(file.file_name.as_str(), rules),
        file.video_codec.is_some() || file.width.is_some() || file.height.is_some(),
        file.audio_codec.is_some(),
    )
}

/// The label of a video codec.
pub open spec fn video_codec_label(codec: Seq<char>) -> Seq<char> {
    if codec == "h264"@ {
        "H.264"@
    } else if codec == "hevc"@ {
        "H.265 / HEVC"@
    } else if codec == "av1"@ {
        "AV1"@
    } else if codec == "vp9"@ {
        "VP9"@
    } else {
        codec
    }
}

/// The label of an audio codec.
pub open spec fn audio_codec_label(codec: Seq<char>) -> Seq<char> {
    if codec == "aac"@ {
        "AAC"@
    } else if codec == "flac"@ {
        "FLAC"@
    } else if codec == "mp3"@ {
        "MP3"@
    } else if codec == "opus"@ {
        "Opus"@
    } else if codec == "vorbis"@ {
        "Vorbis"@
    } else if codec == "truehd"@ {
        "TrueHD"@
    } else if codec == "dts"@ {
        "DTS"@
    } else {
        codec
    }
}

/// The label of a video codec.
pub fn normalize_video_codec(codec: String) -> (r: String)
    ensures
        r@ == video_codec_label(codec@),
{
    if same_text(codec.as_str(), "h264") {
        "H.264".to_string()
    } else if same_text(codec.as_str(), "hevc") {
        "H.265 / HEVC".to_string()
    } else if same_text(codec.as_str(), "av1") {
        "AV1".to_string()
    } else if same_text(codec.as_str(), "vp9") {
        "VP9".to_string()
    } else {
        codec
    }
}

/// The label of an audio codec.
pub fn normalize_audio_codec(codec: String) -> (r: String)
    ensures
        r@ == audio_codec_label(codec@),
{
    if same_text(codec.as_str(), "aac") {
        "AAC".to_string()
    } else if same_text(codec.as_str(), "flac") {
        "FLAC".to_string()
    } else if same_text(codec.as_str(), "mp3") {
        "MP3".to_string()
    } else if same_text(codec.as_str(), "opus") {
        "Opus".to_string()
    } else if same_text(codec.as_str(), "vorbis") {
        "Vorbis".to_string()
    } else if same_text(codec.as_str(), "truehd") {
        "TrueHD".to_string()
    } else if same_text(codec.as_str(), "dts") {
        "DTS".to_string()
    } else {
        codec
    }
}

/// The usual label of a picture height.
pub open spec fn height_label(height: i64) -> Seq<char> {
    if height >= 2000 {
        "2160p"@
    } else if height >= 1000 {
        "1080p"@
    } else if height >= 700 {
        "720p"@
    } else if height >= 470 {
        "480p"@
    } else {
        decimal(height as int) + "p"@
    }
}

/// The label of a picture size.
pub open spec fn size_label(width: Option<i64>, height: i64) -> Seq<char> {
    match width {
        Some(width) => height_label(height) + " ("@ + decimal(width as int) + "x"@ + decimal(
            height as int,
        ) + ")"@,
        None => height_label(height),
    }
}

/// The resolution of a picture: from its size, else the label in a file name.
pub open spec fn resolution_label(
    width: Option<i64>,
    height: Option<i64>,
    in_name: Option<Found>,
) -> Option<Seq<char>> {
    match height {
        Some(height) => Some(size_label(width, height)),
        None => match in_name {
            Some(found) => group(found, 1),
            None => None,
        },
    }
}

/// The label of a picture size.
pub fn label_size(width: Option<i64>, height: i64) -> (r: String)
    ensures
        r@ == size_label(width, height),
{
    let label = if height >= 2000 {
        "2160p".to_string()
    } else if height >= 1000 {
        "1080p".to_string()
    } else if height >= 700 {
        "720p".to_string()
    } else if height >= 470 {
        "480p".to_string()
    } else {
        decimal_text(height).concat("p")
    };
    match width {
        Some(width) => {
            let mut r = label;
            r.append(" (");
            r.append(decimal_text(width).as_str());
            r.append("x");
            r.append(decimal_text(height).as_str());
            r.append(")");
            r
        },
        None => label,
    }
}

/// The resolution of a picture: from its size, else the label in a file name.
pub fn resolution_from_probe_or_name(
    width: Option<i64>,
    height: Option<i64>,
    file_name: &str,
) -> (r: Option<String>)
    ensures
        opt_text(r) == resolution_label(width, height, first_match(RESOLUTION_LABEL@, file_name@)),
{
    if let Some(height) = height {
        return Some(label_size(width, height));
    }
    match find(RESOLUTION_LABEL, file_name) {
        Some(found) => found.group(1),
        None => None,
    }
}

} // verus!
