//! What `ffprobe` reports of a file, and what is kept of it.

use vstd::prelude::*;
use vstd::string::*;

use crate::media::{
    audio_codec_label, is_below_minimum, is_short, normalize_audio_codec, normalize_video_codec,
    video_codec_label, Seconds,
};
use crate::text::{
    ascii_lower, chars_of, opt_text, same_text, spaced, text_of, texts, to_ascii_lower,
};
use crate::titles::clean_metadata_value;
use crate::unicode::{lossy_text, text_from_bytes};

verus! {

/// The report on a file.
pub struct FfprobeOutput {
    pub streams: Option<Vec<FfprobeStream>>,
    pub format: Option<FfprobeFormat>,
}

/// The report on one stream.
pub struct FfprobeStream {
    pub codec_type: Option<String>,
    pub codec_name: Option<String>,
    pub width: Option<i64>,
    pub height: Option<i64>,
    pub duration: Option<Seconds>,
    pub disposition: Option<FfprobeDisposition>,
    pub tags: Option<Vec<(String, String)>>,
}

/// What a stream is meant for.
pub struct FfprobeDisposition {
    pub attached_pic: Option<i64>,
}

/// The report on the container.
pub struct FfprobeFormat {
    pub format_name: Option<String>,
    pub duration: Option<Seconds>,
    pub tags: Option<Vec<(String, String)>>,
}

/// What is kept of the report on a file.
pub struct MediaProbe {
    pub duration_seconds: Option<Seconds>,
    pub container: Option<String>,
    pub video_codec: Option<String>,
    pub audio_codec: Option<String>,
    pub width: Option<i64>,
    pub height: Option<i64>,
    pub has_video: bool,
    pub has_audio: bool,
    pub music_artist: Option<String>,
    pub music_album: Option<String>,
    pub music_title: Option<String>,
}

impl Default for MediaProbe {
    fn default() -> (r: MediaProbe)
        ensures
            r.duration_seconds is None && r.container is None && r.video_codec is None,
            r.audio_codec is None && r.width is None && r.height is None,
            !r.has_video && !r.has_audio,
            r.music_artist is None && r.music_album is None && r.music_title is None,
    {
        MediaProbe {
            duration_seconds: None,
            container: None,
            video_codec: None,
            audio_codec: None,
            width: None,
            height: None,
            has_video: false,
            has_audio: false,
            music_artist: None,
            music_album: None,
            music_title: None,
        }
    }
}

// ---------------------------------------------------------------------------
// Tags
// ---------------------------------------------------------------------------

pub open spec fn tags_model(tags: Seq<(String, String)>) -> Seq<(Seq<char>, Seq<char>)> {
    tags.map_values(|t: (String, String)| (t.0@, t.1@))
}

/// A tag bears a name, in any case, and says something.
pub open spec fn tag_serves(tag: (Seq<char>, Seq<char>), wanted: Seq<char>) -> bool {
    ascii_lower(tag.0) == ascii_lower(wanted) && spaced(tag.1).len() > 0
}

/// The value of the first tag that bears a name and says something.
pub open spec fn tag_named(tags: Seq<(Seq<char>, Seq<char>)>, wanted: Seq<char>) -> Option<
    Seq<char>,
>
    decreases tags.len(),
{
    if tags.len() == 0 {
        None
    } else if tag_serves(tags[0], wanted) {
        Some(spaced(tags[0].1))
    } else {
        tag_named(tags.drop_first(), wanted)
    }
}

/// The value for the first of several names that has one.
pub open spec fn tag_among(tags: Seq<(Seq<char>, Seq<char>)>, names: Seq<Seq<char>>) -> Option<
    Seq<char>,
>
    decreases names.len(),
{
    if names.len() == 0 {
        None
    } else {
        match tag_named(tags, names[0]) {
            Some(value) => Some(value),
            None => tag_among(tags, names.drop_first()),
        }
    }
}

fn find_tag(tags: &Vec<(String, String)>, wanted: &str) -> (r: Option<String>)
    ensures
        opt_text(r) == tag_named(tags_model(tags@), wanted@),
{
    let ghost all = tags_model(tags@);
    let wanted_lower = to_ascii_lower(wanted);
    let mut i: usize = 0;
    proof {
        assert(all.skip(0) =~= all);
    }
    while i < tags.len()
        invariant
            i <= tags@.len(),
            all == tags_model(tags@),
            wanted_lower@ == ascii_lower(wanted@),
            tag_named(all, wanted@) == tag_named(all.skip(i as int), wanted@),
        decreases tags@.len() - i,
    {
        proof {
            assert(all.skip(i as int).drop_first() =~= all.skip(i + 1));
            assert(all.skip(i as int)[0] == (tags@[i as int].0@, tags@[i as int].1@));
        }
        let key_lower = to_ascii_lower(tags[i].0.as_str());
        if key_lower == wanted_lower {
            let cleaned = clean_metadata_value(tags[i].1.as_str());
            if !cleaned.as_str().is_empty() {
                return Some(cleaned);
            }
        }
        i += 1;
    }
    None
}

/// The value for the first of several names that has one.
pub fn tag_value(tags: &Vec<(String, String)>, keys: &Vec<String>) -> (r: Option<String>)
    ensures
        opt_text(r) == tag_among(tags_model(tags@), texts(keys@)),
{
    let ghost names = texts(keys@);
    let mut i: usize = 0;
    proof {
        assert(names.skip(0) =~= names);
    }
    while i < keys.len()
        invariant
            i <= keys@.len(),
            names == texts(keys@),
            tag_among(tags_model(tags@), names) == tag_among(
                tags_model(tags@),
                names.skip(i as int),
            ),
        decreases keys@.len() - i,
    {
        proof {
            assert(names.skip(i as int).drop_first() =~= names.skip(i + 1));
            assert(names.skip(i as int)[0] == keys@[i as int]@);
        }
        if let Some(value) = find_tag(tags, keys[i].as_str()) {
            return Some(value);
        }
        i += 1;
    }
    None
}

/// The names of the tags that name an artist, the most telling first.
pub open spec fn artist_tags() -> Seq<Seq<char>> {
    seq!["album_artist"@, "albumartist"@, "artist"@, "composer"@]
}

pub open spec fn album_tags() -> Seq<Seq<char>> {
    seq!["album"@]
}

pub open spec fn title_tags() -> Seq<Seq<char>> {
    seq!["title"@]
}

pub open spec fn opt_tag(tags: Option<Vec<(String, String)>>, names: Seq<Seq<char>>) -> Option<
    Seq<char>,
> {
    match tags {
        Some(tags) => tag_among(tags_model(tags@), names),
        None => None,
    }
}

// ---------------------------------------------------------------------------
// Streams
// ---------------------------------------------------------------------------

/// A video stream that is not a cover picture.
pub open spec fn is_video(stream: FfprobeStream) -> bool {
    &&& opt_text(stream.codec_type) == Some("video"@)
    &&& !(stream.disposition is Some && stream.disposition->0.attached_pic == Some(1i64))
}

pub open spec fn is_audio(stream: FfprobeStream) -> bool {
    opt_text(stream.codec_type) == Some("audio"@)
}

/// The first video stream.
pub open spec fn first_video(streams: Seq<FfprobeStream>) -> Option<FfprobeStream>
    decreases streams.len(),
{
    if streams.len() == 0 {
        None
    } else {
        match first_video(streams.drop_last()) {
            Some(stream) => Some(stream),
            None => if is_video(streams.last()) {
                Some(streams.last())
            } else {
                None
            },
        }
    }
}

/// The first audio stream.
pub open spec fn first_audio(streams: Seq<FfprobeStream>) -> Option<FfprobeStream>
    decreases streams.len(),
{
    if streams.len() == 0 {
        None
    } else {
        match first_audio(streams.drop_last()) {
            Some(stream) => Some(stream),
            None => if is_audio(streams.last()) {
                Some(streams.last())
            } else {
                None
            },
        }
    }
}

/// The tag value of the first audio stream that has one.
pub open spec fn audio_tag(streams: Seq<FfprobeStream>, names: Seq<Seq<char>>) -> Option<Seq<char>>
    decreases streams.len(),
{
    if streams.len() == 0 {
        None
    } else {
        match audio_tag(streams.drop_last(), names) {
            Some(value) => Some(value),
            None => if is_audio(streams.last()) {
                opt_tag(streams.last().tags, names)
            } else {
                None
            },
        }
    }
}

pub open spec fn or_text(first: Option<Seq<char>>, second: Option<Seq<char>>) -> Option<Seq<char>> {
    match first {
        Some(value) => Some(value),
        None => second,
    }
}

pub open spec fn streams_of(output: FfprobeOutput) -> Seq<FfprobeStream> {
    match output.streams {
        Some(streams) => streams@,
        None => Seq::empty(),
    }
}

/// A tag value of a file: the container's, else the first of its audio
/// streams'.
pub open spec fn file_tag(output: FfprobeOutput, names: Seq<Seq<char>>) -> Option<Seq<char>> {
    or_text(
        match output.format {
            Some(format) => opt_tag(format.tags, names),
            None => None,
        },
        audio_tag(streams_of(output), names),
    )
}

/// The duration of a file: the container's, else its first video stream's.
pub open spec fn file_duration(output: FfprobeOutput) -> Option<Seconds> {
    match (output.format, first_video(streams_of(output))) {
        (Some(format), video) => match (format.duration, video) {
            (Some(duration), _) => Some(duration),
            (None, Some(stream)) => stream.duration,
            (None, None) => None,
        },
        (None, Some(stream)) => stream.duration,
        (None, None) => None,
    }
}

/// The codec label of the first stream of a kind.
pub open spec fn video_label(stream: Option<FfprobeStream>) -> Option<Seq<char>> {
    match stream {
        Some(stream) => match stream.codec_name {
            Some(codec) => Some(video_codec_label(codec@)),
            None => Some("Unknown Video"@),
        },
        None => None,
    }
}

pub open spec fn audio_label(stream: Option<FfprobeStream>) -> Option<Seq<char>> {
    match stream {
        Some(stream) => match stream.codec_name {
            Some(codec) => Some(audio_codec_label(codec@)),
            None => Some("Unknown Audio"@),
        },
        None => None,
    }
}

/// What is kept of a report.
pub open spec fn probe_tells(probe: MediaProbe, output: FfprobeOutput) -> bool {
    let video = first_video(streams_of(output));
    let audio = first_audio(streams_of(output));
    &&& probe.duration_seconds == file_duration(output)
    &&& opt_text(probe.container) == (match output.format {
        Some(format) => opt_text(format.format_name),
        None => None,
    })
    &&& probe.has_video == (video is Some)
    &&& opt_text(probe.video_codec) == video_label(video)
    &&& probe.width == (if video is Some {
        video->0.width
    } else {
        None
    })
    &&& probe.height == (if video is Some {
        video->0.height
    } else {
        None
    })
    &&& probe.has_audio == (audio is Some)
    &&& opt_text(probe.audio_codec) == audio_label(audio)
    &&& opt_text(probe.music_artist) == file_tag(output, artist_tags())
    &&& opt_text(probe.music_album) == file_tag(output, album_tags())
    &&& opt_text(probe.music_title) == file_tag(output, title_tags())
}

fn stream_is(stream: &FfprobeStream, kind: &str) -> (r: bool)
    ensures
        r == (opt_text(stream.codec_type) == Some(kind@)),
{
    match &stream.codec_type {
        Some(codec_type) => same_text(codec_type.as_str(), kind),
        None => false,
    }
}

fn is_cover(stream: &FfprobeStream) -> (r: bool)
    ensures
        r == (stream.disposition is Some && stream.disposition->0.attached_pic == Some(1i64)),
{
    match &stream.disposition {
        Some(disposition) => match disposition.attached_pic {
            Some(attached) => attached == 1,
            None => false,
        },
        None => false,
    }
}

fn tag_or(known: Option<String>, tags: &Option<Vec<(String, String)>>, names: &Vec<String>) -> (r:
    Option<String>)
    ensures
        opt_text(r) == or_text(opt_text(known), opt_tag(*tags, texts(names@))),
{
    if known.is_some() {
        return known;
    }
    match tags {
        Some(tags) => tag_value(tags, names),
        None => None,
    }
}

/// What is kept of the report on a file: the first video stream that is not a
/// cover picture, the first audio stream, and the tags of the container before
/// those of the audio streams.
#[verifier::loop_isolation(false)]
pub fn probe_from_output(output: FfprobeOutput) -> (r: MediaProbe)
    ensures
        probe_tells(r, output),
{
    let artist_names = vec![
        "album_artist".to_string(),
        "albumartist".to_string(),
        "artist".to_string(),
        "composer".to_string(),
    ];
    let album_names = vec!["album".to_string()];
    let title_names = vec!["title".to_string()];
    proof {
        assert(texts(artist_names@) =~= artist_tags());
        assert(texts(album_names@) =~= album_tags());
        assert(texts(title_names@) =~= title_tags());
    }
    let mut probe = MediaProbe::default();
    if let Some(format) = &output.format {
        probe.container = format.format_name.clone();
        probe.duration_seconds = format.duration;
        probe.music_artist = tag_or(None, &format.tags, &artist_names);
        probe.music_album = tag_or(None, &format.tags, &album_names);
        probe.music_title = tag_or(None, &format.tags, &title_names);
    }
    let ghost before = probe;
    let ghost all = streams_of(output);
    if let Some(streams) = &output.streams {
        let mut i: usize = 0;
        while i < streams.len()
            invariant
                i <= streams@.len(),
                all == streams@,
                opt_text(probe.container) == opt_text(before.container),
                probe.has_video == (first_video(all.take(i as int)) is Some),
                opt_text(probe.video_codec) == video_label(first_video(all.take(i as int))),
                first_video(all.take(i as int)) matches Some(stream) ==> probe.width
                    == stream.width && probe.height == stream.height && probe.duration_seconds == (
                if before.duration_seconds is Some {
                    before.duration_seconds
                } else {
                    stream.duration
                }),
                first_video(all.take(i as int)) is None ==> probe.width is None
                    && probe.height is None && probe.duration_seconds == before.duration_seconds,
                probe.has_audio == (first_audio(all.take(i as int)) is Some),
                opt_text(probe.audio_codec) == audio_label(first_audio(all.take(i as int))),
                opt_text(probe.music_artist) == or_text(
                    opt_text(before.music_artist),
                    audio_tag(all.take(i as int), artist_tags()),
                ),
                opt_text(probe.music_album) == or_text(
                    opt_text(before.music_album),
                    audio_tag(all.take(i as int), album_tags()),
                ),
                opt_text(probe.music_title) == or_text(
                    opt_text(before.music_title),
                    audio_tag(all.take(i as int), title_tags()),
                ),
            decreases streams@.len() - i,
        {
            proof {
                assert(all.take(i + 1).drop_last() =~= all.take(i as int));
                assert(all.take(i + 1).last() == streams@[i as int]);
                reveal_strlit("video");
                reveal_strlit("audio");
                assert("video"@[0] != "audio"@[0]);
            }
            let stream = &streams[i];
            if stream_is(stream, "video") {
                // Cover art is reported as an attached video stream.
                if !is_cover(stream) {
                    probe.has_video = true;
                    if probe.video_codec.is_none() {
                        probe.video_codec = match &stream.codec_name {
                            Some(codec) => Some(normalize_video_codec(codec.clone())),
                            None => Some("Unknown Video".to_string()),
                        };
                        probe.width = stream.width;
                        probe.height = stream.height;
                        if probe.duration_seconds.is_none() {
                            probe.duration_seconds = stream.duration;
                        }
                    }
                }
            } else if stream_is(stream, "audio") {
                probe.has_audio = true;
                probe.music_artist = tag_or(probe.music_artist, &stream.tags, &artist_names);
                probe.music_album = tag_or(probe.music_album, &stream.tags, &album_names);
                probe.music_title = tag_or(probe.music_title, &stream.tags, &title_names);
                if probe.audio_codec.is_none() {
                    probe.audio_codec = match &stream.codec_name {
                        Some(codec) => Some(normalize_audio_codec(codec.clone())),
                        None => Some("Unknown Audio".to_string()),
                    };
                }
            }
            i += 1;
        }
        proof {
            assert(all.take(streams@.len() as int) =~= all);
        }
    }
    probe
}

/// A video below five minutes.
pub open spec fn short_video(probe: MediaProbe) -> bool {
    probe.has_video && (probe.duration_seconds matches Some(duration) && is_short(duration))
}

/// Whether a file is a video below five minutes.
pub fn is_short_video(probe: &MediaProbe) -> (r: bool)
    ensures
        r == short_video(*probe),
{
    probe.has_video && match probe.duration_seconds {
        Some(duration) => is_below_minimum(duration),
        None => false,
    }
}

// ---------------------------------------------------------------------------
// Process output
// ---------------------------------------------------------------------------

/// How many characters of a process's output are shown.
pub const MAX_OUTPUT_CHARS: usize = 600;

/// Output of a process in one line, cut to a fixed length.
pub open spec fn compact(output: Seq<char>) -> Seq<char> {
    let line = spaced(output);
    if line.len() == 0 {
        "没有错误输出"@
    } else if line.len() <= MAX_OUTPUT_CHARS {
        line
    } else {
        line.take(MAX_OUTPUT_CHARS as int)
    }
}

/// Output of a process in one line, cut to a fixed length.
pub fn compact_text(output: &str) -> (r: String)
    ensures
        r@ == compact(output@),
{
    let line = clean_metadata_value(output);
    let chars = chars_of(line.as_str());
    if chars.len() == 0 {
        "没有错误输出".to_string()
    } else if chars.len() <= MAX_OUTPUT_CHARS {
        line
    } else {
        let r = text_of(&chars, 0, MAX_OUTPUT_CHARS);
        proof {
            assert(r@ =~= line@.take(MAX_OUTPUT_CHARS as int));
        }
        r
    }
}

/// Output of a process in one line, cut to a fixed length.
pub fn compact_process_output(bytes: &[u8]) -> (r: String)
    ensures
        r@ == compact(lossy_text(bytes@)),
{
    let output = text_from_bytes(bytes);
    compact_text(output.as_str())
}

/// The outcome of a process that has ended.
pub struct ProcessOutput {
    pub success: bool,
    pub stderr: Vec<u8>,
}

/// The error of a check that `ffprobe` can be run, if it has one.
pub open spec fn ffprobe_error(run: Result<ProcessOutput, String>) -> Option<Seq<char>> {
    match run {
        Ok(output) => if output.success {
            None
        } else {
            Some("ffprobe 版本检查返回非零状态："@ + compact(lossy_text(output.stderr@)))
        },
        Err(error) => Some("未能从 PATH 调用 ffprobe："@ + error@),
    }
}

/// Whether a run of `ffprobe -version` shows that it can be used.
pub fn verify_ffprobe(run: Result<ProcessOutput, String>) -> (r: Result<(), String>)
    ensures
        match r {
            Ok(_) => ffprobe_error(run) is None,
            Err(message) => ffprobe_error(run) == Some(message@),
        },
{
    match run {
        Ok(output) => {
            if output.success {
                Ok(())
            } else {
                let shown = compact_process_output(output.stderr.as_slice());
                Err("ffprobe 版本检查返回非零状态：".to_string().concat(shown.as_str()))
            }
        },
        Err(error) => Err("未能从 PATH 调用 ffprobe：".to_string().concat(error.as_str())),
    }
}

/// What is told of a probe that failed: the error of the run, a non-zero status
/// or an unreadable report, whichever comes first.
pub open spec fn probe_error(
    run: Result<ProcessOutput, String>,
    report: Result<FfprobeOutput, String>,
) -> Option<Seq<char>> {
    match run {
        Err(error) => Some(error@),
        Ok(output) => if !output.success {
            Some("ffprobe 返回非零状态："@ + compact(lossy_text(output.stderr@)))
        } else {
            match report {
                Err(error) => Some("ffprobe JSON 解析失败："@ + error@),
                Ok(_) => None,
            }
        },
    }
}

/// What a run of `ffprobe` on a file tells, given what could be read of its
/// report: the error of the run, a non-zero status or an unreadable report
/// each end in an error.
pub fn probe_media(
    run: Result<ProcessOutput, String>,
    report: Result<FfprobeOutput, String>,
) -> (r: Result<MediaProbe, String>)
    ensures
        match (run, report) {
            (Err(error), _) => r matches Err(message) && message@ == error@,
            (Ok(output), Err(error)) => r matches Err(message) && message@ == (if output.success {
                "ffprobe JSON 解析失败："@ + error@
            } else {
                "ffprobe 返回非零状态："@ + compact(lossy_text(output.stderr@))
            }),
            (Ok(output), Ok(parsed)) => if output.success {
                r matches Ok(probe) && probe_tells(probe, parsed)
            } else {
                r matches Err(message) && message@ == "ffprobe 返回非零状态："@ + compact(
                    lossy_text(output.stderr@),
                )
            },
        },
        match probe_error(run, report) {
            Some(error) => r matches Err(message) && message@ == error,
            None => r is Ok,
        },
{
    let output = match run {
        Ok(output) => output,
        Err(error) => {
            return Err(error);
        },
    };
    if !output.success {
        let shown = compact_process_output(output.stderr.as_slice());
        return Err("ffprobe 返回非零状态：".to_string().concat(shown.as_str()));
    }
    match report {
        Ok(parsed) => Ok(probe_from_output(parsed)),
        Err(error) => Err("ffprobe JSON 解析失败：".to_string().concat(error.as_str())),
    }
}

} // verus!
