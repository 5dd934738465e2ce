//! The analysis of one file of a scan.

use vstd::prelude::*;

use crate::directories::{infer_series_family, infer_video_series, series_family, video_series};
use crate::episodes::{parse_name, stem_says};
use crate::media::{resolution_from_probe_or_name, resolution_label, Seconds};
use crate::music::{infer_music_metadata, music_metadata};
use crate::paths::{
    normalized_path_string, path_file_name, path_key, path_parent, stem, PathRules,
};
use crate::pattern::{first_match, RESOLUTION_LABEL};
use crate::probe::{
    first_video, is_short_video, is_video, probe_tells, short_video, streams_of, FfprobeOutput,
    FfprobeStream, MediaProbe,
};
use crate::text::{opt_text, same_text};
use crate::titles::{build_item_key, group_source_key, item_key, source_key};
use vstd::string::*;

verus! {

/// What a scan that was stopped reports.
pub const SCAN_STOPPED_MESSAGE: &'static str = "扫描已停止";

/// A file as it goes into the index.
pub struct AnalyzedFile {
    pub path: String,
    pub file_name: String,
    pub root_path: String,
    pub root_key: String,
    pub directory_path: String,
    pub media_kind: String,
    pub file_size: i64,
    pub modified_ms: Option<i64>,
    pub duration_seconds: Option<Seconds>,
    pub container: Option<String>,
    pub video_codec: Option<String>,
    pub audio_codec: Option<String>,
    pub width: Option<i64>,
    pub height: Option<i64>,
    pub resolution: Option<String>,
    pub source: Option<String>,
    pub release_group: Option<String>,
    pub season_number: Option<i64>,
    pub episode_number: Option<i64>,
    pub title_guess: String,
    pub item_key: String,
    pub music_artist: Option<String>,
    pub music_album: Option<String>,
    pub music_title: Option<String>,
    pub music_artist_source: Option<String>,
    pub music_artist_key: Option<String>,
    pub series_title: Option<String>,
    pub series_source: Option<String>,
    pub series_key: Option<String>,
    pub family_key: Option<String>,
}

/// Why a file does not go into the index.
pub enum AnalyzeSkip {
    Failed { reason: String, detail: String },
    ShortVideo,
    Stopped,
}

/// What the file system tells of a file.
#[derive(Clone, Copy)]
pub struct FileMetadata {
    pub file_size: i64,
    pub modified_ms: Option<i64>,
}

/// Where a file lies. What is not text in the paths is shown by replacement
/// characters. In the legible paths a dash stands for each directory name that
/// is not text, so that it tells nothing; elsewhere they are the same.
pub struct FileLocation {
    pub path: String,
    pub root_path: String,
    pub resolved_root: String,
    pub legible_path: String,
    pub legible_root: String,
}

/// A file that is ready to be probed.
pub struct ReadableFile {
    pub file_name: String,
    pub metadata: FileMetadata,
}

/// A file is left out for a reason, with a detail.
pub open spec fn failed_with(skip: AnalyzeSkip, reason: Seq<char>, detail: Seq<char>) -> bool {
    skip matches AnalyzeSkip::Failed { reason: r, detail: d } && r@ == reason && d@ == detail
}

fn failed(reason: &str, detail: &str) -> (r: AnalyzeSkip)
    ensures
        failed_with(r, reason@, detail@),
{
    AnalyzeSkip::Failed { reason: reason.to_string(), detail: detail.to_string() }
}

/// Why a file cannot be probed, and what is told of it, if it cannot: it could
/// not be read, or its path does not end in a name.
pub open spec fn unreadable(metadata: Result<FileMetadata, String>, name: Option<Seq<char>>) -> Option<
    (Seq<char>, Seq<char>),
> {
    match (metadata, name) {
        (Err(error), _) => Some(("metadata_error"@, "无法读取文件元数据："@ + error@)),
        (Ok(_), None) => Some(("invalid_path"@, "文件路径中缺少文件名"@)),
        (Ok(_), Some(_)) => None,
    }
}

/// Whether a file can be probed: the scan goes on, the file could be read, and
/// its path ends in a name.
pub fn check_readable(
    path: &str,
    stop_requested: bool,
    metadata: Result<FileMetadata, String>,
    rules: PathRules,
) -> (r: Result<ReadableFile, AnalyzeSkip>)
    ensures
        stop_requested ==> r matches Err(AnalyzeSkip::Stopped),
        !stop_requested ==> (match (metadata, path_file_name(path@, rules.windows())) {
            (Err(error), _) => r matches Err(skip) && failed_with(
                skip,
                "metadata_error"@,
                "无法读取文件元数据："@ + error@,
            ),
            (Ok(_), None) => r matches Err(skip) && failed_with(
                skip,
                "invalid_path"@,
                "文件路径中缺少文件名"@,
            ),
            (Ok(metadata), Some(name)) => r matches Ok(file) && file.file_name@ == name
                && file.metadata == metadata,
        }),
        !stop_requested ==> match unreadable(metadata, path_file_name(path@, rules.windows())) {
            Some((reason, detail)) => r matches Err(skip) && failed_with(skip, reason, detail),
            None => r is Ok,
        },
{
    if stop_requested {
        return Err(AnalyzeSkip::Stopped);
    }
    match metadata {
        Ok(metadata) => match rules.file_name(path) {
            Some(file_name) => Ok(ReadableFile { file_name, metadata }),
            None => Err(failed("invalid_path", "文件路径中缺少文件名")),
        },
        Err(error) => {
            let detail = "无法读取文件元数据：".to_string().concat(error.as_str());
            Err(failed("metadata_error", detail.as_str()))
        },
    }
}

/// The key of a group of a name, where there is a name.
pub open spec fn opt_source_key(kind: Seq<char>, name: Option<Seq<char>>) -> Option<Seq<char>> {
    match name {
        Some(name) => Some(source_key(kind, name)),
        None => None,
    }
}

fn key_of_name(kind: &str, name: &Option<String>) -> (r: Option<String>)
    ensures
        opt_text(r) == opt_source_key(kind@, opt_text(*name)),
{
    match name {
        Some(name) => Some(group_source_key(kind, name.as_str())),
        None => None,
    }
}

/// The directory of a file: the parent of its path, else the scanned root.
pub open spec fn directory_of(path: Seq<char>, root: Seq<char>, windows: bool) -> Seq<char> {
    match path_parent(path, windows) {
        Some(parent) => parent,
        None => root,
    }
}

/// The directory of a file.
pub fn directory_path_of(path: &str, root_path: &str, rules: PathRules) -> (r: String)
    ensures
        r@ == directory_of(path@, root_path@, rules.windows()),
{
    match rules.parent(path) {
        Some(parent) => parent,
        None => root_path.to_string(),
    }
}

/// The text, where it was found, else another.
pub open spec fn text_or(value: Option<Seq<char>>, other: Seq<char>) -> Seq<char> {
    match value {
        Some(text) => text,
        None => other,
    }
}

fn choose_text(value: &Option<String>, other: &str) -> (r: String)
    ensures
        r@ == text_or(opt_text(*value), other@),
{
    match value {
        Some(text) => text.clone(),
        None => other.to_string(),
    }
}

/// What the index holds of where a file lies and what the file system tells.
pub open spec fn placed_as(
    file: AnalyzedFile,
    location: FileLocation,
    readable: ReadableFile,
    windows: bool,
) -> bool {
    &&& file.path@ == location.path@
    &&& file.file_name@ == readable.file_name@
    &&& file.root_path@ == location.root_path@
    &&& file.root_key@ == path_key(location.resolved_root@, windows)
    &&& file.directory_path@ == directory_of(location.path@, location.root_path@, windows)
    &&& file.file_size == readable.metadata.file_size
    &&& file.modified_ms == readable.metadata.modified_ms
}

/// What the index holds of the streams of a file.
pub open spec fn probed_as(file: AnalyzedFile, probe: MediaProbe) -> bool {
    &&& file.media_kind@ == (if probe.has_video {
        "video"@
    } else {
        "music"@
    })
    &&& file.duration_seconds == probe.duration_seconds
    &&& file.container == probe.container
    &&& file.video_codec == probe.video_codec
    &&& file.audio_codec == probe.audio_codec
    &&& file.width == probe.width
    &&& file.height == probe.height
    &&& opt_text(file.resolution) == resolution_label(
        probe.width,
        probe.height,
        first_match(RESOLUTION_LABEL@, file.file_name@),
    )
}

/// What the index holds of the name of a file.
pub open spec fn named_as(file: AnalyzedFile, windows: bool) -> bool {
    let parsed = stem_says(stem(file.file_name@, windows));
    &&& opt_text(file.source) == parsed.source
    &&& opt_text(file.release_group) == parsed.release_group
    &&& file.season_number == parsed.season_number
    &&& file.episode_number == parsed.episode_number
    &&& file.title_guess@ == text_or(
        opt_text(
            if file.media_kind@ == "video"@ {
                file.series_title
            } else {
                file.music_title
            },
        ),
        parsed.title_guess,
    )
    &&& file.item_key@ == item_key(file.title_guess@, file.season_number, file.episode_number)
}

/// What the index holds of the artist of a file: of music only.
pub open spec fn heard_as(
    file: AnalyzedFile,
    location: FileLocation,
    probe: MediaProbe,
    windows: bool,
) -> bool {
    let music = music_metadata(
        probe,
        location.legible_path@,
        location.legible_root@,
        file.file_name@,
        windows,
    );
    &&& opt_text(file.music_artist_key) == opt_source_key(
        "music_artist"@,
        opt_text(file.music_artist),
    )
    &&& if probe.has_video {
        file.music_artist is None && file.music_album is None && file.music_title is None
            && file.music_artist_source is None
    } else {
        opt_text(file.music_artist) == Some(music.artist) && opt_text(file.music_album)
            == music.album && opt_text(file.music_title) == music.title && opt_text(
            file.music_artist_source,
        ) == Some(music.artist_source)
    }
}

/// What the index holds of the series of a file: of videos only.
pub open spec fn seen_as(
    file: AnalyzedFile,
    location: FileLocation,
    probe: MediaProbe,
    windows: bool,
) -> bool {
    let parsed = stem_says(stem(file.file_name@, windows));
    let (series, source) = video_series(
        location.legible_path@,
        location.legible_root@,
        parsed.title_guess,
        windows,
    );
    &&& opt_text(file.series_key) == opt_source_key("video_series"@, opt_text(file.series_title))
    &&& if probe.has_video {
        opt_text(file.series_title) == Some(series) && opt_text(file.series_source) == Some(source)
            && opt_text(file.family_key) == opt_source_key(
            "video_series"@,
            series_family(location.legible_path@, location.legible_root@, series, windows),
        )
    } else {
        file.series_title is None && file.series_source is None && file.family_key is None
    }
}

/// What a file was analysed to be.
pub open spec fn analyzed_as(
    file: AnalyzedFile,
    location: FileLocation,
    readable: ReadableFile,
    probe: MediaProbe,
    windows: bool,
) -> bool {
    &&& placed_as(file, location, readable, windows)
    &&& probed_as(file, probe)
    &&& named_as(file, windows)
    &&& heard_as(file, location, probe, windows)
    &&& seen_as(file, location, probe, windows)
}

fn index_file(
    location: &FileLocation,
    readable: ReadableFile,
    probe: MediaProbe,
    rules: PathRules,
) -> (r: AnalyzedFile)
    requires
        probe.has_video || probe.has_audio,
    ensures
        analyzed_as(r, *location, readable, probe, rules.windows()),
{
    let path = location.legible_path.as_str();
    let root_path = location.legible_root.as_str();
    let file_name = readable.file_name;
    let parsed = parse_name(file_name.as_str(), rules);
    let resolution = resolution_from_probe_or_name(probe.width, probe.height, file_name.as_str());
    let (music_artist, music_album, music_title, music_artist_source) = if !probe.has_video {
        infer_music_metadata(&probe, path, root_path, file_name.as_str(), rules)
    } else {
        (None, None, None, None)
    };
    let (series_title, series_source) = if probe.has_video {
        infer_video_series(path, root_path, &parsed, rules)
    } else {
        (None, None)
    };
    let title_guess = if probe.has_video {
        choose_text(&series_title, parsed.title_guess.as_str())
    } else {
        choose_text(&music_title, parsed.title_guess.as_str())
    };
    let item_key = build_item_key(
        title_guess.as_str(),
        parsed.season_number,
        parsed.episode_number,
    );
    let family = match &series_title {
        Some(series) => infer_series_family(path, root_path, series.as_str(), rules),
        None => None,
    };
    let music_artist_key = key_of_name("music_artist", &music_artist);
    let series_key = key_of_name("video_series", &series_title);
    let family_key = key_of_name("video_series", &family);
    let media_kind = if probe.has_video {
        "video".to_string()
    } else {
        "music".to_string()
    };
    proof {
        reveal_strlit("video");
        reveal_strlit("music");
        assert("video"@[0] != "music"@[0]);
    }
    AnalyzedFile {
        path: location.path.clone(),
        file_name,
        root_path: location.root_path.clone(),
        root_key: normalized_path_string(location.resolved_root.as_str(), rules),
        directory_path: directory_path_of(
            location.path.as_str(),
            location.root_path.as_str(),
            rules,
        ),
        media_kind,
        file_size: readable.metadata.file_size,
        modified_ms: readable.metadata.modified_ms,
        duration_seconds: probe.duration_seconds,
        container: probe.container,
        video_codec: probe.video_codec,
        audio_codec: probe.audio_codec,
        width: probe.width,
        height: probe.height,
        resolution,
        source: parsed.source,
        release_group: parsed.release_group,
        season_number: parsed.season_number,
        episode_number: parsed.episode_number,
        title_guess,
        item_key,
        music_artist,
        music_album,
        music_title,
        music_artist_source,
        music_artist_key,
        series_title,
        series_source,
        series_key,
        family_key,
    }
}

/// Why a file that was probed is left out as failed, and what is told of it, if
/// it is: the probe failed, other than by a stop, or found no stream.
pub open spec fn probe_failure(probe: Result<MediaProbe, String>) -> Option<
    (Seq<char>, Seq<char>),
> {
    match probe {
        Err(error) => if error@ == SCAN_STOPPED_MESSAGE@ {
            None
        } else {
            Some(("ffprobe_error"@, error@))
        },
        Ok(probe) => if probe.has_video || probe.has_audio {
            None
        } else {
            Some(("no_media_stream"@, "ffprobe 未检测到有效的视频流或音频流"@))
        },
    }
}

/// A file that was probed goes into the index: it has a stream and is no short
/// video.
pub open spec fn goes_into_the_index(probe: Result<MediaProbe, String>) -> bool {
    probe matches Ok(probe) && (probe.has_video || probe.has_audio) && !short_video(probe)
}

/// The analysis of a file that was probed: stopped where the probe was, failed
/// where the probe failed or found no stream, left out as a short video, else
/// what goes into the index.
pub fn analyze_file(
    location: &FileLocation,
    readable: ReadableFile,
    probe: Result<MediaProbe, String>,
    rules: PathRules,
) -> (r: Result<AnalyzedFile, AnalyzeSkip>)
    ensures
        match probe {
            Err(error) => if error@ == SCAN_STOPPED_MESSAGE@ {
                r matches Err(AnalyzeSkip::Stopped)
            } else {
                r matches Err(skip) && failed_with(skip, "ffprobe_error"@, error@)
            },
            Ok(probe) => if !probe.has_video && !probe.has_audio {
                r matches Err(skip) && failed_with(
                    skip,
                    "no_media_stream"@,
                    "ffprobe 未检测到有效的视频流或音频流"@,
                )
            } else if short_video(probe) {
                r matches Err(AnalyzeSkip::ShortVideo)
            } else {
                r matches Ok(file) && analyzed_as(
                    file,
                    *location,
                    readable,
                    probe,
                    rules.windows(),
                )
            },
        },
        match probe_failure(probe) {
            Some((reason, detail)) => r matches Err(skip) && failed_with(skip, reason, detail),
            None => r matches Err(skip) ==> skip !is Failed,
        },
        r is Ok <==> goes_into_the_index(probe),
{
    let probe = match probe {
        Ok(probe) => probe,
        Err(error) => {
            if same_text(error.as_str(), SCAN_STOPPED_MESSAGE) {
                return Err(AnalyzeSkip::Stopped);
            }
            return Err(failed("ffprobe_error", error.as_str()));
        },
    };
    if !probe.has_video && !probe.has_audio {
        return Err(failed("no_media_stream", "ffprobe 未检测到有效的视频流或音频流"));
    }
    if is_short_video(&probe) {
        return Err(AnalyzeSkip::ShortVideo);
    }
    Ok(index_file(location, readable, probe, rules))
}

// ---------------------------------------------------------------------------
// Laws
// ---------------------------------------------------------------------------

proof fn lemma_first_video(streams: Seq<FfprobeStream>)
    ensures
        first_video(streams) is Some <==> exists|i: int|
            0 <= i < streams.len() && #[trigger] is_video(streams[i]),
    decreases streams.len(),
{
    if streams.len() > 0 {
        let before = streams.drop_last();
        lemma_first_video(before);
        if first_video(before) is Some {
            let i = choose|i: int| 0 <= i < before.len() && #[trigger] is_video(before[i]);
            assert(is_video(streams[i]));
        } else {
            if is_video(streams.last()) {
                assert(is_video(streams[streams.len() - 1]));
            }
            assert forall|i: int| 0 <= i < streams.len() - 1 implies !#[trigger] is_video(
                streams[i],
            ) by {
                assert(!is_video(before[i]));
            }
        }
    }
}

/// The streams of a file decide its kind: a file with a video stream that is
/// not a cover picture is a video, every other is music.
pub proof fn streams_decide_the_kind(output: FfprobeOutput, probe: MediaProbe, file: AnalyzedFile)
    requires
        probe_tells(probe, output),
        probed_as(file, probe),
    ensures
        file.media_kind@ == "video"@ <==> exists|i: int|
            0 <= i < streams_of(output).len() && #[trigger] is_video(streams_of(output)[i]),
        file.media_kind@ == "video"@ || file.media_kind@ == "music"@,
{
    lemma_first_video(streams_of(output));
    reveal_strlit("video");
    reveal_strlit("music");
    assert("video"@[0] != "music"@[0]);
}

} // verus!
