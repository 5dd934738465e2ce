//! What files and streams tell: laws on extensions, paths, tags, streams and
//! resolutions. They speak of tags, codecs and extensions by their names.

use vstd::prelude::*;
use vstd::string::*;

use crate::analysis::{analyzed_as, AnalyzedFile, FileLocation, ReadableFile};
use crate::directories::{series_family, video_series};
use crate::episodes::stem_says;
use crate::media::{
    audio_codec_label, file_kind, height_label, resolution_label, video_codec_label,
    ResourceVariant, Seconds,
};
use crate::music::music_metadata;
use crate::paths::{
    audio_extensions, extension, extension_of_name, has_extension, is_below, last_dot,
    media_extensions, path_file_name, path_key, shown_path, stem, stem_of_name,
    without_end_slashes,
};
use crate::pattern::{first_match, group, Found};
use crate::probe::{
    audio_tag, compact, first_audio, first_video, opt_tag, probe_tells, short_video, streams_of,
    tag_among, tag_named, tags_model, FfprobeOutput, FfprobeStream, MediaProbe,
};
use crate::text::{ascii_lower, decimal, opt_text, spaced, swapped};
use crate::titles::{item_key, source_key};

verus! {

// ---------------------------------------------------------------------------
// Extensions and paths
// ---------------------------------------------------------------------------

proof fn lemma_last_dot(base: Seq<char>, ending: Seq<char>)
    requires
        !ending.contains('.'),
    ensures
        last_dot(base + seq!['.'] + ending) == base.len(),
        last_dot(ending) == -1,
    decreases ending.len(),
{
    let name = base + seq!['.'] + ending;
    if ending.len() == 0 {
        assert(name.last() == '.');
    } else {
        let shorter = ending.drop_last();
        assert(ending.contains(ending.last()));
        if shorter.contains('.') {
            let i = choose|i: int| 0 <= i < shorter.len() && shorter[i] == '.';
            assert(ending[i] == '.');
        }
        lemma_last_dot(base, shorter);
        assert(name.drop_last() =~= base + seq!['.'] + shorter);
        assert(name.last() == ending.last());
    }
}

/// What stands behind the last dot of a name is its extension, and what stands
/// before it is its stem. A name without a dot, or with one in front alone, has
/// no extension.
pub proof fn extensions_stand_behind_the_last_dot(base: Seq<char>, ending: Seq<char>)
    requires
        !ending.contains('.'),
    ensures
        base.len() > 0 ==> extension_of_name(base + seq!['.'] + ending) == Some(ending),
        base.len() > 0 ==> stem_of_name(base + seq!['.'] + ending) == base,
        extension_of_name(seq!['.'] + ending) is None,
        stem_of_name(seq!['.'] + ending) == seq!['.'] + ending,
        extension_of_name(ending) is None,
        stem_of_name(ending) == ending,
{
    lemma_last_dot(base, ending);
    lemma_last_dot(Seq::empty(), ending);
    let name = base + seq!['.'] + ending;
    assert(name.skip(base.len() as int + 1) =~= ending);
    assert(name.take(base.len() as int) =~= base);
    assert(Seq::<char>::empty() + seq!['.'] + ending =~= seq!['.'] + ending);
}

/// A file is a media file exactly if its extension is one of these, in any
/// case, and it has the name of music exactly if it is one of the last eight.
pub proof fn media_files_have_their_extensions(path: Seq<char>, windows: bool)
    ensures
        has_extension(path, media_extensions(), windows) <==> (extension(path, windows) matches Some(
            ending,
        ) && ({
            let e = ascii_lower(ending);
            e == "mkv"@
                || e == "mp4"@
                || e == "avi"@
                || e == "mov"@
                || e == "wmv"@
                || e == "flv"@
                || e == "m4v"@
                || e == "ts"@
                || e == "m2ts"@
                || e == "webm"@
                || e == "mpg"@
                || e == "mpeg"@
                || e == "mp3"@
                || e == "flac"@
                || e == "m4a"@
                || e == "aac"@
                || e == "ogg"@
                || e == "opus"@
                || e == "wav"@
                || e == "ape"@
        })),
        has_extension(path, audio_extensions(), windows) <==> (extension(path, windows) matches Some(
            ending,
        ) && ({
            let e = ascii_lower(ending);
            e == "mp3"@
                || e == "flac"@
                || e == "m4a"@
                || e == "aac"@
                || e == "ogg"@
                || e == "opus"@
                || e == "wav"@
                || e == "ape"@
        })),
{
    let all = media_extensions();
    assert(all.len() == 20);
    assert(all[0] == "mkv"@);
    assert(all[1] == "mp4"@);
    assert(all[2] == "avi"@);
    assert(all[3] == "mov"@);
    assert(all[4] == "wmv"@);
    assert(all[5] == "flv"@);
    assert(all[6] == "m4v"@);
    assert(all[7] == "ts"@);
    assert(all[8] == "m2ts"@);
    assert(all[9] == "webm"@);
    assert(all[10] == "mpg"@);
    assert(all[11] == "mpeg"@);
    assert(all[12] == "mp3"@);
    assert(all[13] == "flac"@);
    assert(all[14] == "m4a"@);
    assert(all[15] == "aac"@);
    assert(all[16] == "ogg"@);
    assert(all[17] == "opus"@);
    assert(all[18] == "wav"@);
    assert(all[19] == "ape"@);
    let sound = audio_extensions();
    assert(sound.len() == 8);
    assert(sound[0] == "mp3"@);
    assert(sound[1] == "flac"@);
    assert(sound[2] == "m4a"@);
    assert(sound[3] == "aac"@);
    assert(sound[4] == "ogg"@);
    assert(sound[5] == "opus"@);
    assert(sound[6] == "wav"@);
    assert(sound[7] == "ape"@);
    if let Some(ending) = extension(path, windows) {
        let e = ascii_lower(ending);
        if all.contains(e) {
            let i = choose|i: int| 0 <= i < all.len() && all[i] == e;
            assert(0 <= i < 20);
        }
        if sound.contains(e) {
            let i = choose|i: int| 0 <= i < sound.len() && sound[i] == e;
            assert(0 <= i < 8);
        }
    }
}

/// The stem and the extension of a path are those of its last part; a path
/// without one is its own stem and has no extension.
pub proof fn stems_belong_to_the_last_part(path: Seq<char>, windows: bool)
    ensures
        path_file_name(path, windows) matches Some(name) ==> {
            &&& stem(path, windows) == stem_of_name(name)
            &&& extension(path, windows) == extension_of_name(name)
        },
        path_file_name(path, windows) is None ==> {
            &&& stem(path, windows) == path
            &&& extension(path, windows) is None
        },
{
}

/// A directory lies below another exactly if its key begins with the other key
/// and a slash.
pub proof fn below_is_behind_a_slash(parent: Seq<char>, rest: Seq<char>, other: Seq<char>)
    ensures
        is_below(parent + seq!['/'] + rest, parent),
        is_below(other, parent) <==> other.len() > parent.len() && other.take(parent.len() as int)
            == parent && other[parent.len() as int] == '/',
{
    let whole = parent + seq!['/'] + rest;
    let n = parent.len() as int;
    assert(parent.push('/') =~= parent + seq!['/']);
    assert(whole.take(n + 1) =~= parent.push('/'));
    if is_below(other, parent) {
        assert forall|i: int| 0 <= i < n implies other[i] == parent[i] by {
            assert(other[i] == parent.push('/')[i]);
        }
        assert(other.take(n) =~= parent);
        assert(other[n] == parent.push('/')[n]);
    }
    if other.len() > n && other.take(n) == parent && other[n] == '/' {
        assert forall|i: int| 0 <= i < n implies other[i] == parent[i] by {
            assert(other.take(n)[i] == other[i]);
        }
        assert(other.take(n + 1) =~= parent.push('/'));
    }
}

/// The verbatim prefixes of Windows are not shown: `\\?\UNC\` stands for two
/// backslashes, `\\?\` for nothing. Elsewhere, and without them, a path is shown
/// as it is.
pub proof fn verbatim_prefixes_are_not_shown(rest: Seq<char>, windows: bool)
    ensures
        shown_path(r"\\?\UNC\"@ + rest, true) == r"\\"@ + rest,
        !r"UNC\"@.is_prefix_of(rest) ==> shown_path(r"\\?\"@ + rest, true) == rest,
        !r"\\?\"@.is_prefix_of(rest) ==> shown_path(rest, windows) == rest,
        shown_path(rest, false) == rest,
{
    reveal_strlit(r"\\?\UNC\");
    reveal_strlit(r"\\?\");
    reveal_strlit(r"UNC\");
    let long = r"\\?\UNC\"@;
    let short = r"\\?\"@;
    assert(long.len() == 8 && short.len() == 4 && r"UNC\"@.len() == 4);
    assert((long + rest).take(8) =~= long);
    assert((long + rest).skip(8) =~= rest);
    assert((short + rest).take(4) =~= short);
    assert((short + rest).skip(4) =~= rest);
    if long.is_prefix_of(short + rest) {
        assert forall|i: int| 0 <= i < 4 implies r"UNC\"@[i] == rest[i] by {
            assert(long[i + 4] == (short + rest)[i + 4]);
        }
        assert(r"UNC\"@.is_prefix_of(rest)) by {
            assert(rest.len() >= 4);
            assert(rest.take(4) =~= r"UNC\"@);
        }
    }
    if long.is_prefix_of(rest) {
        assert(rest.take(4) =~= short) by {
            assert forall|i: int| 0 <= i < 4 implies rest[i] == short[i] by {
                assert(long[i] == rest[i]);
            }
        }
    }
}

proof fn lemma_end_slash(s: Seq<char>)
    requires
        s.len() > 0,
    ensures
        without_end_slashes(s.push('/')) == without_end_slashes(s),
{
    assert(s.push('/').drop_last() =~= s);
}

/// Keys of directories do not depend on slashes at the end, nor on the kind of
/// slashes, and on Windows not on the case of ASCII letters; elsewhere a path
/// of plain slashes without one at the end is its own key.
pub proof fn keys_of_directories_are_alike(a: Seq<char>, b: Seq<char>)
    ensures
        a.len() > 0 ==> path_key(a.push('/'), false) == path_key(a, false),
        swapped(a, '\\', '/') == swapped(b, '\\', '/') ==> path_key(a, false) == path_key(b, false),
        !a.contains('\\') && (a.len() <= 1 || a.last() != '/') ==> path_key(a, false) == a,
        path_key(a, true) == ascii_lower(
            without_end_slashes(swapped(shown_path(a, true), '\\', '/')),
        ),
{
    if a.len() > 0 {
        assert(swapped(a.push('/'), '\\', '/') =~= swapped(a, '\\', '/').push('/'));
        lemma_end_slash(swapped(a, '\\', '/'));
    }
    if !a.contains('\\') {
        assert forall|i: int| 0 <= i < a.len() implies a[i] != '\\' by {
            assert(a.contains(a[i]));
        }
        assert(swapped(a, '\\', '/') =~= a);
    }
}

// ---------------------------------------------------------------------------
// Tags
// ---------------------------------------------------------------------------

/// The value of a tag is that of the first one with its name, in any case, that
/// says something, with single spaces.
pub proof fn tags_are_found_by_name(tags: Seq<(Seq<char>, Seq<char>)>, name: Seq<char>, i: int)
    requires
        0 <= i < tags.len(),
        ascii_lower(tags[i].0) == ascii_lower(name),
        spaced(tags[i].1).len() > 0,
        forall|j: int|
            0 <= j < i ==> ascii_lower((#[trigger] tags[j]).0) != ascii_lower(name) || spaced(
                tags[j].1,
            ).len() == 0,
    ensures
        tag_named(tags, name) == Some(spaced(tags[i].1)),
    decreases tags.len(),
{
    if i > 0 {
        let rest = tags.drop_first();
        assert(ascii_lower(tags[0].0) != ascii_lower(name) || spaced(tags[0].1).len() == 0);
        assert forall|j: int| 0 <= j < i - 1 implies ascii_lower((#[trigger] rest[j]).0)
            != ascii_lower(name) || spaced(rest[j].1).len() == 0 by {
            assert(rest[j] == tags[j + 1]);
        }
        tags_are_found_by_name(rest, name, i - 1);
    }
}

/// A tag that nothing with its name says has no value.
pub proof fn silent_tags_have_no_value(tags: Seq<(Seq<char>, Seq<char>)>, name: Seq<char>)
    requires
        forall|j: int|
            0 <= j < tags.len() ==> ascii_lower((#[trigger] tags[j]).0) != ascii_lower(name)
                || spaced(tags[j].1).len() == 0,
    ensures
        tag_named(tags, name) is None,
    decreases tags.len(),
{
    if tags.len() > 0 {
        let rest = tags.drop_first();
        assert(ascii_lower(tags[0].0) != ascii_lower(name) || spaced(tags[0].1).len() == 0);
        assert forall|j: int| 0 <= j < rest.len() implies ascii_lower((#[trigger] rest[j]).0)
            != ascii_lower(name) || spaced(rest[j].1).len() == 0 by {
            assert(rest[j] == tags[j + 1]);
        }
        silent_tags_have_no_value(rest, name);
    }
}

/// What a list of tags says of an artist: `album_artist` before `albumartist`
/// before `artist` before `composer`.
pub open spec fn first_of_four(
    a: Option<Seq<char>>,
    b: Option<Seq<char>>,
    c: Option<Seq<char>>,
    d: Option<Seq<char>>,
) -> Option<Seq<char>> {
    if a is Some {
        a
    } else if b is Some {
        b
    } else if c is Some {
        c
    } else {
        d
    }
}

/// The artist of a report is what its container says under `album_artist`, else
/// under `albumartist`, else under `artist`, else under `composer`; the album
/// what it says under `album`; the title what it says under `title`. Only where
/// the container says nothing the audio streams are asked, in the same order.
pub proof fn tags_come_by_priority(
    probe: MediaProbe,
    output: FfprobeOutput,
    tags: Seq<(Seq<char>, Seq<char>)>,
)
    requires
        probe_tells(probe, output),
        output.format matches Some(format) && (format.tags matches Some(list) && tags_model(list@)
            == tags),
    ensures
        tag_named(tags, "album_artist"@) matches Some(value) ==> opt_text(probe.music_artist) == Some(
            value,
        ),
        tag_named(tags, "album_artist"@) is None ==> (tag_named(tags, "albumartist"@) matches Some(
            value,
        ) ==> opt_text(probe.music_artist) == Some(value)),
        tag_named(tags, "album_artist"@) is None && tag_named(tags, "albumartist"@) is None ==> (
        tag_named(tags, "artist"@) matches Some(value) ==> opt_text(probe.music_artist) == Some(
            value,
        )),
        tag_named(tags, "album_artist"@) is None && tag_named(tags, "albumartist"@) is None
            && tag_named(tags, "artist"@) is None ==> (tag_named(tags, "composer"@) matches Some(
            value,
        ) ==> opt_text(probe.music_artist) == Some(value)),
        tag_named(tags, "album"@) matches Some(value) ==> opt_text(probe.music_album) == Some(value),
        tag_named(tags, "title"@) matches Some(value) ==> opt_text(probe.music_title) == Some(value),
{
    reveal_with_fuel(tag_among, 5);
    lemma_tag_lists(tags);
}

proof fn lemma_tag_lists(tags: Seq<(Seq<char>, Seq<char>)>)
    ensures
        tag_among(tags, crate::probe::artist_tags()) == first_of_four(
            tag_named(tags, "album_artist"@),
            tag_named(tags, "albumartist"@),
            tag_named(tags, "artist"@),
            tag_named(tags, "composer"@),
        ),
        tag_among(tags, crate::probe::album_tags()) == tag_named(tags, "album"@),
        tag_among(tags, crate::probe::title_tags()) == tag_named(tags, "title"@),
{
    reveal_with_fuel(tag_among, 5);
}

/// Where the container says nothing of an artist, an album or a title, the first
/// audio stream that says something of it is asked, with the same names in the
/// same order.
pub proof fn streams_are_asked_where_the_container_is_silent(
    probe: MediaProbe,
    output: FfprobeOutput,
    i: int,
    tags: Seq<(Seq<char>, Seq<char>)>,
)
    requires
        probe_tells(probe, output),
        output.format is None || output.format->0.tags is None,
        0 <= i < streams_of(output).len(),
        opt_text(streams_of(output)[i].codec_type) == Some("audio"@),
        streams_of(output)[i].tags matches Some(list) && tags_model(list@) == tags,
        forall|j: int|
            0 <= j < i ==> opt_text((#[trigger] streams_of(output)[j]).codec_type) != Some(
                "audio"@,
            ),
    ensures
        ({
            let artist = first_of_four(
                tag_named(tags, "album_artist"@),
                tag_named(tags, "albumartist"@),
                tag_named(tags, "artist"@),
                tag_named(tags, "composer"@),
            );
            &&& artist is Some ==> opt_text(probe.music_artist) == artist
            &&& tag_named(tags, "album"@) is Some ==> opt_text(probe.music_album) == tag_named(
                tags,
                "album"@,
            )
            &&& tag_named(tags, "title"@) is Some ==> opt_text(probe.music_title) == tag_named(
                tags,
                "title"@,
            )
        }),
{
    lemma_tag_lists(tags);
    lemma_audio_tag(streams_of(output), crate::probe::artist_tags(), i);
    lemma_audio_tag(streams_of(output), crate::probe::album_tags(), i);
    lemma_audio_tag(streams_of(output), crate::probe::title_tags(), i);
}

proof fn lemma_audio_tag(streams: Seq<FfprobeStream>, names: Seq<Seq<char>>, i: int)
    requires
        0 <= i < streams.len(),
        opt_text(streams[i].codec_type) == Some("audio"@),
        forall|j: int|
            0 <= j < i ==> opt_text((#[trigger] streams[j]).codec_type) != Some("audio"@),
    ensures
        opt_tag(streams[i].tags, names) is Some ==> audio_tag(streams, names) == opt_tag(
            streams[i].tags,
            names,
        ),
    decreases streams.len(),
{
    if i == streams.len() - 1 {
        lemma_no_audio_tag(streams.drop_last(), names);
    } else {
        lemma_audio_tag(streams.drop_last(), names, i);
    }
}

proof fn lemma_no_audio_tag(streams: Seq<FfprobeStream>, names: Seq<Seq<char>>)
    requires
        forall|j: int|
            0 <= j < streams.len() ==> opt_text((#[trigger] streams[j]).codec_type) != Some(
                "audio"@,
            ),
    ensures
        audio_tag(streams, names) is None,
    decreases streams.len(),
{
    if streams.len() > 0 {
        let before = streams.drop_last();
        assert forall|j: int| 0 <= j < before.len() implies opt_text(
            (#[trigger] before[j]).codec_type,
        ) != Some("audio"@) by {
            assert(before[j] == streams[j]);
        }
        lemma_no_audio_tag(before, names);
        assert(opt_text(streams[streams.len() - 1].codec_type) != Some("audio"@));
    }
}

// ---------------------------------------------------------------------------
// Streams
// ---------------------------------------------------------------------------

/// A stream shows pictures: it is of the type `video` and no attached picture.
pub open spec fn shows_pictures(stream: FfprobeStream) -> bool {
    opt_text(stream.codec_type) == Some("video"@) && !(stream.disposition matches Some(flags)
        && flags.attached_pic == Some(1i64))
}

proof fn lemma_first_video(streams: Seq<FfprobeStream>, i: int)
    requires
        0 <= i < streams.len(),
        shows_pictures(streams[i]),
        forall|j: int| 0 <= j < i ==> !shows_pictures(#[trigger] streams[j]),
    ensures
        first_video(streams) == Some(streams[i]),
    decreases streams.len(),
{
    if i == streams.len() - 1 {
        lemma_no_video(streams.drop_last());
    } else {
        lemma_first_video(streams.drop_last(), i);
    }
}

proof fn lemma_no_video(streams: Seq<FfprobeStream>)
    requires
        forall|j: int| 0 <= j < streams.len() ==> !shows_pictures(#[trigger] streams[j]),
    ensures
        first_video(streams) is None,
    decreases streams.len(),
{
    if streams.len() > 0 {
        let before = streams.drop_last();
        assert forall|j: int| 0 <= j < before.len() implies !shows_pictures(
            #[trigger] before[j],
        ) by {
            assert(before[j] == streams[j]);
        }
        lemma_no_video(before);
        assert(!shows_pictures(streams[streams.len() - 1]));
    }
}

proof fn lemma_first_audio(streams: Seq<FfprobeStream>, i: int)
    requires
        0 <= i < streams.len(),
        opt_text(streams[i].codec_type) == Some("audio"@),
        forall|j: int|
            0 <= j < i ==> opt_text((#[trigger] streams[j]).codec_type) != Some("audio"@),
    ensures
        first_audio(streams) == Some(streams[i]),
    decreases streams.len(),
{
    if i == streams.len() - 1 {
        lemma_no_audio(streams.drop_last());
    } else {
        lemma_first_audio(streams.drop_last(), i);
    }
}

proof fn lemma_no_audio(streams: Seq<FfprobeStream>)
    requires
        forall|j: int|
            0 <= j < streams.len() ==> opt_text((#[trigger] streams[j]).codec_type) != Some(
                "audio"@,
            ),
    ensures
        first_audio(streams) is None,
    decreases streams.len(),
{
    if streams.len() > 0 {
        let before = streams.drop_last();
        assert forall|j: int| 0 <= j < before.len() implies opt_text(
            (#[trigger] before[j]).codec_type,
        ) != Some("audio"@) by {
            assert(before[j] == streams[j]);
        }
        lemma_no_audio(before);
        assert(opt_text(streams[streams.len() - 1].codec_type) != Some("audio"@));
    }
}

/// The first stream that shows pictures tells codec and size of a video; a
/// report without one is of no video, and has no size.
pub proof fn the_first_picture_stream_counts(probe: MediaProbe, output: FfprobeOutput, i: int)
    requires
        probe_tells(probe, output),
        -1 <= i < streams_of(output).len(),
        forall|j: int|
            0 <= j < streams_of(output).len() && (j < i || i < 0) ==> !shows_pictures(
                #[trigger] streams_of(output)[j],
            ),
        i >= 0 ==> shows_pictures(streams_of(output)[i]),
    ensures
        i >= 0 ==> {
            let stream = streams_of(output)[i];
            &&& probe.has_video
            &&& probe.width == stream.width
            &&& probe.height == stream.height
            &&& opt_text(probe.video_codec) == Some(
                match stream.codec_name {
                    Some(codec) => video_codec_label(codec@),
                    None => "Unknown Video"@,
                },
            )
        },
        i < 0 ==> !probe.has_video && probe.width is None && probe.height is None
            && probe.video_codec is None,
        output.format matches Some(format) ==> opt_text(probe.container) == opt_text(
            format.format_name,
        ),
        output.format is None ==> probe.container is None,
        output.format is Some && output.format->0.duration is Some ==> probe.duration_seconds
            == output.format->0.duration,
        output.format is None || output.format->0.duration is None ==> probe.duration_seconds == (
        if i >= 0 {
            streams_of(output)[i].duration
        } else {
            None
        }),
{
    if i >= 0 {
        lemma_first_video(streams_of(output), i);
    } else {
        lemma_no_video(streams_of(output));
    }
}

/// The first audio stream tells the codec of the sound; a report without one
/// has no sound.
pub proof fn the_first_sound_stream_counts(probe: MediaProbe, output: FfprobeOutput, i: int)
    requires
        probe_tells(probe, output),
        -1 <= i < streams_of(output).len(),
        forall|j: int|
            0 <= j < streams_of(output).len() && (j < i || i < 0) ==> opt_text(
                (#[trigger] streams_of(output)[j]).codec_type,
            ) != Some("audio"@),
        i >= 0 ==> opt_text(streams_of(output)[i].codec_type) == Some("audio"@),
    ensures
        i >= 0 ==> {
            &&& probe.has_audio
            &&& opt_text(probe.audio_codec) == Some(
                match streams_of(output)[i].codec_name {
                    Some(codec) => audio_codec_label(codec@),
                    None => "Unknown Audio"@,
                },
            )
        },
        i < 0 ==> !probe.has_audio && probe.audio_codec is None,
{
    if i >= 0 {
        lemma_first_audio(streams_of(output), i);
    } else {
        lemma_no_audio(streams_of(output));
    }
}

/// Codecs have their usual names, and others are called as they are.
pub proof fn codecs_have_their_names(codec: Seq<char>)
    ensures
        video_codec_label("h264"@) == "H.264"@,
        video_codec_label("hevc"@) == "H.265 / HEVC"@,
        video_codec_label("av1"@) == "AV1"@,
        video_codec_label("vp9"@) == "VP9"@,
        codec != "h264"@ && codec != "hevc"@ && codec != "av1"@ && codec != "vp9"@
            ==> video_codec_label(codec) == codec,
        audio_codec_label("aac"@) == "AAC"@,
        audio_codec_label("flac"@) == "FLAC"@,
        audio_codec_label("mp3"@) == "MP3"@,
        audio_codec_label("opus"@) == "Opus"@,
        audio_codec_label("vorbis"@) == "Vorbis"@,
        audio_codec_label("truehd"@) == "TrueHD"@,
        audio_codec_label("dts"@) == "DTS"@,
        codec != "aac"@ && codec != "flac"@ && codec != "mp3"@ && codec != "opus"@ && codec
            != "vorbis"@ && codec != "truehd"@ && codec != "dts"@ ==> audio_codec_label(codec)
            == codec,
{
    reveal_strlit("h264");
    reveal_strlit("hevc");
    reveal_strlit("av1");
    reveal_strlit("vp9");
    reveal_strlit("aac");
    reveal_strlit("flac");
    reveal_strlit("mp3");
    reveal_strlit("opus");
    reveal_strlit("vorbis");
    reveal_strlit("truehd");
    reveal_strlit("dts");
    assert("h264"@[1] != "hevc"@[1]);
    assert("aac"@.len() == 3 && "mp3"@.len() == 3 && "dts"@.len() == 3 && "flac"@.len() == 4
        && "opus"@.len() == 4 && "vorbis"@.len() == 6 && "truehd"@.len() == 6);
    assert("aac"@[0] != "mp3"@[0] && "aac"@[0] != "dts"@[0] && "mp3"@[0] != "dts"@[0]);
    assert("flac"@[0] != "opus"@[0] && "vorbis"@[0] != "truehd"@[0]);
    assert("av1"@[0] != "vp9"@[0]);
}

/// A video is short exactly if it is known to last less than five minutes: the
/// bits of 300 seconds are the limit, a duration below zero lies below it, and
/// what is no number does not.
pub proof fn videos_below_five_minutes_are_short(probe: MediaProbe, duration: Seconds)
    ensures
        probe.duration_seconds is None ==> !short_video(probe),
        !probe.has_video ==> !short_video(probe),
        probe.has_video && probe.duration_seconds == Some(duration) ==> (short_video(probe) <==> (
        duration.bits < 0x4072_c000_0000_0000 || 0x8000_0000_0000_0000 <= duration.bits
            <= 0xfff0_0000_0000_0000)),
{
}

/// Heights have the label of their class.
pub proof fn heights_have_their_class(height: i64)
    ensures
        height >= 2000 ==> height_label(height) == "2160p"@,
        1000 <= height < 2000 ==> height_label(height) == "1080p"@,
        700 <= height < 1000 ==> height_label(height) == "720p"@,
        470 <= height < 700 ==> height_label(height) == "480p"@,
        height < 470 ==> height_label(height) == decimal(height as int) + "p"@,
{
}

/// The resolution is told by the height, with the size behind it where the
/// width is known; else by the name.
pub proof fn resolutions_come_from_streams_first(
    width: Option<i64>,
    height: Option<i64>,
    in_name: Option<Found>,
)
    ensures
        height is Some && width is Some ==> resolution_label(width, height, in_name) == Some(
            height_label(height->0) + " ("@ + decimal(width->0 as int) + "x"@ + decimal(
                height->0 as int,
            ) + ")"@,
        ),
        height is Some && width is None ==> resolution_label(width, height, in_name) == Some(
            height_label(height->0),
        ),
        height is None ==> (in_name matches Some(found) ==> resolution_label(
            width,
            height,
            in_name,
        ) == group(found, 1)),
        height is None && in_name is None ==> resolution_label(width, height, in_name) is None,
{
}

/// The kind of a stored file: by an audio name with sound it is music and
/// without sound nothing; else by pictures a video; else by sound music.
pub proof fn stored_files_have_their_kind(file: ResourceVariant, windows: bool)
    ensures
        ({
            let is_named = has_extension(file.file_name@, audio_extensions(), windows);
            let is_seen = file.video_codec is Some || file.width is Some || file.height is Some;
            let is_heard = file.audio_codec is Some;
            &&& is_heard && (is_named || !is_seen) ==> file_kind(file, windows) == Some("music"@)
            &&& is_seen && !is_named ==> file_kind(file, windows) == Some("video"@)
            &&& !is_heard && (is_named || !is_seen) ==> file_kind(file, windows) is None
        }),
{
}

/// What is shown of the output of a process: its words on one line, at most six
/// hundred characters of them, or that there is none.
pub proof fn output_is_shown_on_one_line(output: Seq<char>)
    ensures
        spaced(output).len() == 0 ==> compact(output) == "没有错误输出"@,
        0 < spaced(output).len() <= 600 ==> compact(output) == spaced(output),
        spaced(output).len() > 600 ==> compact(output).len() == 600 && compact(output).is_prefix_of(
            spaced(output),
        ),
{
}

// ---------------------------------------------------------------------------
// Analysed files
// ---------------------------------------------------------------------------

/// What the index holds of a file is what was found: where it lies, what the
/// file system and its streams tell, what its name tells, and of music the
/// artist, of a video the series, with their keys.
pub proof fn the_index_holds_what_was_found(
    file: AnalyzedFile,
    location: FileLocation,
    readable: ReadableFile,
    probe: MediaProbe,
    windows: bool,
)
    requires
        analyzed_as(file, location, readable, probe, windows),
    ensures
        ({
            let parsed = stem_says(stem(readable.file_name@, windows));
            let music = music_metadata(
                probe,
                location.legible_path@,
                location.legible_root@,
                readable.file_name@,
                windows,
            );
            let (series, series_source) = video_series(
                location.legible_path@,
                location.legible_root@,
                parsed.title_guess,
                windows,
            );
            let family = series_family(
                location.legible_path@,
                location.legible_root@,
                series,
                windows,
            );
            &&& file.path@ == location.path@
            &&& file.root_path@ == location.root_path@
            &&& file.root_key@ == path_key(location.resolved_root@, windows)
            &&& file.file_name@ == readable.file_name@
            &&& file.file_size == readable.metadata.file_size
            &&& file.modified_ms == readable.metadata.modified_ms
            &&& file.duration_seconds == probe.duration_seconds
            &&& opt_text(file.container) == opt_text(probe.container)
            &&& opt_text(file.video_codec) == opt_text(probe.video_codec)
            &&& opt_text(file.audio_codec) == opt_text(probe.audio_codec)
            &&& file.width == probe.width
            &&& file.height == probe.height
            &&& opt_text(file.resolution) == resolution_label(
                probe.width,
                probe.height,
                first_match(r"(?i)\b(2160p|1080p|720p|480p|4k|8k)\b"@, readable.file_name@),
            )
            &&& opt_text(file.source) == parsed.source
            &&& opt_text(file.release_group) == parsed.release_group
            &&& file.season_number == parsed.season_number
            &&& file.episode_number == parsed.episode_number
            &&& probe.has_video ==> {
                &&& file.media_kind@ == "video"@
                &&& opt_text(file.series_title) == Some(series)
                &&& opt_text(file.series_source) == Some(series_source)
                &&& opt_text(file.series_key) == Some(source_key("video_series"@, series))
                &&& family is Some ==> opt_text(file.family_key) == Some(
                    source_key("video_series"@, family->0),
                )
                &&& family is None ==> file.family_key is None
                &&& file.title_guess@ == series
                &&& file.music_artist is None && file.music_album is None && file.music_title is None
                &&& file.music_artist_source is None && file.music_artist_key is None
            }
            &&& !probe.has_video ==> {
                &&& file.media_kind@ == "music"@
                &&& opt_text(file.music_artist) == Some(music.artist)
                &&& opt_text(file.music_album) == music.album
                &&& opt_text(file.music_title) == music.title
                &&& opt_text(file.music_artist_source) == Some(music.artist_source)
                &&& opt_text(file.music_artist_key) == Some(
                    source_key("music_artist"@, music.artist),
                )
                &&& music.title is Some ==> file.title_guess@ == music.title->0
                &&& music.title is None ==> file.title_guess@ == parsed.title_guess
                &&& file.series_title is None && file.series_source is None
                &&& file.series_key is None && file.family_key is None
            }
        }),
{
    reveal_strlit("video");
    reveal_strlit("music");
    assert("video"@[0] != "music"@[0]);
}

/// The key of an item holds its title, and season and episode where both are
/// known, in this order.
pub proof fn items_have_their_key(title: Seq<char>, season: i64, episode: i64)
    ensures
        item_key(title, Some(season), Some(episode)) == "episode:"@ + crate::titles::title_key(title)
            + ":s"@ + crate::text::padded(season as int, 2) + ":e"@ + crate::text::padded(
            episode as int,
            3,
        ),
        item_key(title, None, Some(episode)) == "item:"@ + crate::titles::title_key(title),
        item_key(title, Some(season), None) == "item:"@ + crate::titles::title_key(title),
        item_key(title, None, None) == "item:"@ + crate::titles::title_key(title),
{
}

} // verus!
