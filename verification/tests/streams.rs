use media_administrator::analysis::{
    analyze_file, check_readable, AnalyzeSkip, AnalyzedFile, FileLocation, FileMetadata,
    ReadableFile, SCAN_STOPPED_MESSAGE,
};
use media_administrator::media::{
    is_below_minimum, normalize_audio_codec, normalize_video_codec, resolution_from_probe_or_name,
    Seconds,
};
use media_administrator::paths::{is_audio_file_name, is_media_file, PathRules};
use media_administrator::probe::{
    compact_process_output, is_short_video, probe_from_output, probe_media, tag_value,
    verify_ffprobe, FfprobeDisposition, FfprobeFormat, FfprobeOutput, FfprobeStream, MediaProbe,
    ProcessOutput,
};

fn rules() -> PathRules {
    PathRules::of_this_machine()
}

fn location(path: &str, root: &str, resolved_root: &str) -> FileLocation {
    FileLocation {
        path: path.to_string(),
        root_path: root.to_string(),
        resolved_root: resolved_root.to_string(),
        legible_path: path.to_string(),
        legible_root: root.to_string(),
    }
}

fn seconds(number: f64) -> Seconds {
    Seconds {
        bits: number.to_bits(),
    }
}

fn stream(codec_type: &str, codec_name: Option<&str>) -> FfprobeStream {
    FfprobeStream {
        codec_type: Some(codec_type.to_string()),
        codec_name: codec_name.map(|name| name.to_string()),
        width: None,
        height: None,
        duration: None,
        disposition: None,
        tags: None,
    }
}

fn tag(key: &str, value: &str) -> (String, String) {
    (key.to_string(), value.to_string())
}

fn readable(name: &str) -> ReadableFile {
    ReadableFile {
        file_name: name.to_string(),
        metadata: FileMetadata {
            file_size: 10,
            modified_ms: Some(5),
        },
    }
}

fn analyzed(result: Result<AnalyzedFile, AnalyzeSkip>) -> AnalyzedFile {
    match result {
        Ok(file) => file,
        Err(_) => panic!("the file is left out"),
    }
}

fn reason(result: Result<AnalyzedFile, AnalyzeSkip>) -> (String, String) {
    match result {
        Err(AnalyzeSkip::Failed { reason, detail }) => (reason, detail),
        _ => panic!("the file has not failed"),
    }
}

#[test]
fn videos_below_five_minutes_are_short() {
    assert!(is_below_minimum(seconds(299.999)));
    assert!(!is_below_minimum(seconds(300.0)));
    assert!(!is_below_minimum(seconds(f64::INFINITY)));
    assert!(!is_below_minimum(seconds(f64::NAN)));
    assert!(!is_below_minimum(seconds(-f64::NAN)));
    assert!(is_below_minimum(seconds(-1.0)));
    assert!(is_below_minimum(seconds(-0.0)));
    assert!(is_below_minimum(seconds(f64::NEG_INFINITY)));
    for number in [0.0, 1.5, 299.0, 300.5, 5000.0, -7.25, 1e300, 1e-300] {
        assert_eq!(is_below_minimum(seconds(number)), number < 300.0);
    }
}

#[test]
fn only_videos_are_short_videos() {
    let music = MediaProbe {
        has_audio: true,
        duration_seconds: Some(seconds(10.0)),
        ..MediaProbe::default()
    };
    assert!(!is_short_video(&music));
    let video = MediaProbe {
        has_video: true,
        duration_seconds: Some(seconds(10.0)),
        ..MediaProbe::default()
    };
    assert!(is_short_video(&video));
    let unknown = MediaProbe {
        has_video: true,
        ..MediaProbe::default()
    };
    assert!(!is_short_video(&unknown));
}

#[test]
fn resolutions_have_labels() {
    let label = |width: Option<i64>, height: Option<i64>, name: &str| {
        resolution_from_probe_or_name(width, height, name)
    };
    assert_eq!(label(Some(3840), Some(2160), "").as_deref(), Some("2160p (3840x2160)"));
    assert_eq!(label(Some(1920), Some(1080), "").as_deref(), Some("1080p (1920x1080)"));
    assert_eq!(label(None, Some(720), "").as_deref(), Some("720p"));
    assert_eq!(label(None, Some(480), "").as_deref(), Some("480p"));
    assert_eq!(label(None, Some(360), "").as_deref(), Some("360p"));
    assert_eq!(label(None, None, "Name 720P x264").as_deref(), Some("720P"));
    assert_eq!(label(None, None, "Name"), None);
}

#[test]
fn codecs_have_labels() {
    assert_eq!(normalize_video_codec("h264".to_string()), "H.264");
    assert_eq!(normalize_video_codec("hevc".to_string()), "H.265 / HEVC");
    assert_eq!(normalize_video_codec("mjpeg".to_string()), "mjpeg");
    assert_eq!(normalize_audio_codec("flac".to_string()), "FLAC");
    assert_eq!(normalize_audio_codec("vorbis".to_string()), "Vorbis");
    assert_eq!(normalize_audio_codec("pcm".to_string()), "pcm");
}

#[test]
fn extensions_tell_media_files() {
    assert!(is_media_file("/a/b.MKV", rules()));
    assert!(is_media_file("/a/b.flac", rules()));
    assert!(!is_media_file("/a/b.txt", rules()));
    assert!(!is_media_file("/a/mkv", rules()));
    assert!(!is_media_file("/a/.mkv", rules()));
    assert!(is_audio_file_name("x.Mp3", rules()));
    assert!(!is_audio_file_name("x.mkv", rules()));
}

#[test]
fn tags_are_found_by_priority() {
    let tags = vec![tag("ARTIST", "Singer"), tag("Album_Artist", " "), tag("composer", "C")];
    let names = vec![
        "album_artist".to_string(),
        "artist".to_string(),
        "composer".to_string(),
    ];
    assert_eq!(tag_value(&tags, &names).as_deref(), Some("Singer"));
    assert_eq!(tag_value(&tags, &vec!["album".to_string()]), None);
}

#[test]
fn reports_become_probes() {
    let mut cover = stream("video", Some("mjpeg"));
    cover.disposition = Some(FfprobeDisposition {
        attached_pic: Some(1),
    });
    let mut sound = stream("audio", Some("flac"));
    sound.tags = Some(vec![tag("artist", "Singer")]);
    sound.duration = Some(seconds(100.0));
    let probe = probe_from_output(FfprobeOutput {
        streams: Some(vec![cover, sound]),
        format: Some(FfprobeFormat {
            format_name: Some("flac".to_string()),
            duration: None,
            tags: Some(vec![tag("TITLE", "Song")]),
        }),
    });
    assert!(!probe.has_video);
    assert!(probe.has_audio);
    assert_eq!(probe.container.as_deref(), Some("flac"));
    assert_eq!(probe.video_codec, None);
    assert_eq!(probe.audio_codec.as_deref(), Some("FLAC"));
    assert_eq!(probe.music_artist.as_deref(), Some("Singer"));
    assert_eq!(probe.music_title.as_deref(), Some("Song"));

    let mut picture = stream("video", None);
    picture.width = Some(1920);
    picture.height = Some(1080);
    picture.duration = Some(seconds(1000.0));
    let probe = probe_from_output(FfprobeOutput {
        streams: Some(vec![picture, stream("video", Some("h264"))]),
        format: None,
    });
    assert!(probe.has_video);
    assert_eq!(probe.video_codec.as_deref(), Some("Unknown Video"));
    assert_eq!(probe.width, Some(1920));
    assert_eq!(
        probe.duration_seconds.map(|duration| f64::from_bits(duration.bits)),
        Some(1000.0)
    );

    let nothing = probe_from_output(FfprobeOutput {
        streams: None,
        format: None,
    });
    assert!(!nothing.has_video && !nothing.has_audio);
}

#[test]
fn process_output_is_one_short_line() {
    assert_eq!(compact_process_output(b"  one\n two\t"), "one two");
    assert_eq!(compact_process_output(b" \n "), "没有错误输出");
    assert_eq!(compact_process_output(&[0xff, b'x']), "\u{fffd}x");
    let long = "é".repeat(700);
    assert_eq!(compact_process_output(long.as_bytes()), "é".repeat(600));
}

#[test]
fn ffprobe_has_to_run() {
    assert_eq!(
        verify_ffprobe(Ok(ProcessOutput {
            success: true,
            stderr: vec![],
        })),
        Ok(())
    );
    assert_eq!(
        verify_ffprobe(Ok(ProcessOutput {
            success: false,
            stderr: b"bad".to_vec(),
        })),
        Err("ffprobe 版本检查返回非零状态：bad".to_string())
    );
    assert_eq!(
        verify_ffprobe(Err("missing".to_string())),
        Err("未能从 PATH 调用 ffprobe：missing".to_string())
    );
}

#[test]
fn probes_fail_with_their_reason() {
    let message = |run: Result<ProcessOutput, String>, report: Result<FfprobeOutput, String>| {
        match probe_media(run, report) {
            Ok(_) => "probed".to_string(),
            Err(message) => message,
        }
    };
    let ended = |success: bool| {
        Ok(ProcessOutput {
            success,
            stderr: b"bad file".to_vec(),
        })
    };
    let report = || {
        Ok(FfprobeOutput {
            streams: None,
            format: None,
        })
    };
    assert_eq!(message(Err("lost".to_string()), report()), "lost");
    assert_eq!(message(ended(false), report()), "ffprobe 返回非零状态：bad file");
    assert_eq!(
        message(ended(true), Err("eof".to_string())),
        "ffprobe JSON 解析失败：eof"
    );
    assert_eq!(message(ended(true), report()), "probed");
}

#[test]
fn files_have_to_be_readable() {
    let metadata = FileMetadata {
        file_size: 3,
        modified_ms: None,
    };
    match check_readable("/a/b.mkv", false, Ok(metadata), rules()) {
        Ok(file) => {
            assert_eq!(file.file_name, "b.mkv");
            assert_eq!(file.metadata.file_size, 3);
        }
        Err(_) => panic!("readable"),
    }
    match check_readable("/a/b.mkv", false, Err("gone".to_string()), rules()) {
        Err(AnalyzeSkip::Failed { reason, detail }) => {
            assert_eq!(reason, "metadata_error");
            assert_eq!(detail, "无法读取文件元数据：gone");
        }
        _ => panic!("unreadable"),
    }
    match check_readable("/a/..", false, Ok(metadata), rules()) {
        Err(AnalyzeSkip::Failed { reason, detail }) => {
            assert_eq!(reason, "invalid_path");
            assert_eq!(detail, "文件路径中缺少文件名");
        }
        _ => panic!("no name"),
    }
    assert!(matches!(
        check_readable("/a/b.mkv", true, Ok(metadata), rules()),
        Err(AnalyzeSkip::Stopped)
    ));
}

#[test]
fn analyses_fail_with_their_reason() {
    let analyze = |probe: Result<MediaProbe, String>| {
        analyze_file(&location("/r/b.mkv", "/r", "/r"), readable("b.mkv"), probe, rules())
    };
    assert_eq!(
        reason(analyze(Err("bad".to_string()))),
        ("ffprobe_error".to_string(), "bad".to_string())
    );
    assert_eq!(
        reason(analyze(Ok(MediaProbe::default()))),
        (
            "no_media_stream".to_string(),
            "ffprobe 未检测到有效的视频流或音频流".to_string()
        )
    );
    assert!(matches!(
        analyze(Err(SCAN_STOPPED_MESSAGE.to_string())),
        Err(AnalyzeSkip::Stopped)
    ));
    assert!(matches!(
        analyze(Ok(MediaProbe {
            has_video: true,
            duration_seconds: Some(seconds(299.0)),
            ..MediaProbe::default()
        })),
        Err(AnalyzeSkip::ShortVideo)
    ));
}

#[test]
fn videos_are_analyzed() {
    let file = analyzed(analyze_file(
        &location(
            "/r/Fate/Fate Zero/Fate Zero - 03 [BDRip 1080p].mkv",
            "/r",
            "/real/r/",
        ),
        readable("Fate Zero - 03 [BDRip 1080p].mkv"),
        Ok(MediaProbe {
            has_video: true,
            has_audio: true,
            duration_seconds: Some(seconds(1400.0)),
            width: Some(1920),
            height: Some(1080),
            video_codec: Some("H.264".to_string()),
            ..MediaProbe::default()
        }),
        rules(),
    ));
    assert_eq!(file.media_kind, "video");
    assert_eq!(file.root_key, "/real/r");
    assert_eq!(file.directory_path, "/r/Fate/Fate Zero");
    assert_eq!(file.file_size, 10);
    assert_eq!(file.modified_ms, Some(5));
    assert_eq!(file.resolution.as_deref(), Some("1080p (1920x1080)"));
    assert_eq!(file.source.as_deref(), Some("BDRip"));
    assert_eq!(file.season_number, Some(1));
    assert_eq!(file.episode_number, Some(3));
    assert_eq!(file.title_guess, "Fate Zero");
    assert_eq!(file.item_key, "episode:fate-zero:s01:e003");
    assert_eq!(file.series_title.as_deref(), Some("Fate Zero"));
    assert_eq!(file.series_source.as_deref(), Some("filename"));
    assert_eq!(file.series_key.as_deref(), Some("video_series:fate-zero"));
    assert_eq!(file.family_key.as_deref(), Some("video_series:fate"));
    assert_eq!(file.music_artist, None);
    assert_eq!(file.music_artist_key, None);
}

#[test]
fn music_is_analyzed() {
    let file = analyzed(analyze_file(
        &location("/m/Artist/Album/01 Song.flac", "/m", "/m"),
        readable("01 Song.flac"),
        Ok(MediaProbe {
            has_audio: true,
            duration_seconds: Some(seconds(100.0)),
            audio_codec: Some("FLAC".to_string()),
            music_title: Some("Song".to_string()),
            ..MediaProbe::default()
        }),
        rules(),
    ));
    assert_eq!(file.media_kind, "music");
    assert_eq!(file.music_artist.as_deref(), Some("Artist"));
    assert_eq!(file.music_album.as_deref(), Some("Album"));
    assert_eq!(file.music_artist_source.as_deref(), Some("directory"));
    assert_eq!(file.music_artist_key.as_deref(), Some("music_artist:artist"));
    assert_eq!(file.title_guess, "Song");
    assert_eq!(file.series_title, None);
    assert_eq!(file.series_key, None);
    assert_eq!(file.family_key, None);
}

#[test]
fn names_that_are_not_text_tell_nothing() {
    let mut place = location("/r/Some Show/\u{fffd}\u{fffd}/01.mkv", "/r", "/r");
    place.legible_path = "/r/Some Show/-/01.mkv".to_string();
    let file = analyzed(analyze_file(
        &place,
        readable("01.mkv"),
        Ok(MediaProbe {
            has_video: true,
            ..MediaProbe::default()
        }),
        rules(),
    ));
    assert_eq!(file.path, "/r/Some Show/\u{fffd}\u{fffd}/01.mkv");
    assert_eq!(file.directory_path, "/r/Some Show/\u{fffd}\u{fffd}");
    assert_eq!(file.series_title.as_deref(), Some("Some Show"));
}
