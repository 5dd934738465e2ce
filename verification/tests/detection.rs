use media_administrator::directories::{
    clean_directory_title, infer_series_family, infer_video_series,
};
use media_administrator::episodes::parse_name;
use media_administrator::media::{media_kind_for_file, ResourceVariant};
use media_administrator::music::{infer_artist_title_from_filename, infer_music_metadata};
use media_administrator::paths::PathRules;
use media_administrator::probe::MediaProbe;
use media_administrator::rules::detected_series_for_file;
use media_administrator::titles::{infer_series_family_title, normalize_series_title};

fn rules() -> PathRules {
    PathRules::of_this_machine()
}

fn resource_variant(file_name: &str) -> ResourceVariant {
    ResourceVariant {
        id: 1,
        path: file_name.to_string(),
        file_name: file_name.to_string(),
        root_path: String::new(),
        file_size: 0,
        duration_seconds: None,
        container: None,
        video_codec: None,
        audio_codec: None,
        width: None,
        height: None,
        resolution: None,
        source: None,
        release_group: None,
        season_number: None,
        episode_number: None,
        title_guess: file_name.to_string(),
        media_kind: String::new(),
        music_artist: None,
        music_album: None,
        music_title: None,
        music_artist_source: None,
        series_title: None,
        series_source: None,
    }
}

#[test]
fn audio_extension_with_cover_art_stays_music() {
    let mut file = resource_variant("album.flac");
    file.audio_codec = Some("FLAC".to_string());
    file.video_codec = Some("MJPEG".to_string());

    assert_eq!(media_kind_for_file(&file, rules()).as_deref(), Some("music"));
}

#[test]
fn audio_extension_without_audio_stream_is_ignored() {
    let mut file = resource_variant("broken.flac");
    file.video_codec = Some("MJPEG".to_string());

    assert_eq!(media_kind_for_file(&file, rules()), None);
}

#[test]
fn real_video_file_stays_video() {
    let mut file = resource_variant("movie.mkv");
    file.video_codec = Some("H.264".to_string());

    assert_eq!(media_kind_for_file(&file, rules()).as_deref(), Some("video"));
}

#[test]
fn parses_bracketed_anime_episode_name() {
    let parsed = parse_name("[Nekomoe kissaten][Jigokuraku][25][1080p][JPSC].mp4", rules());

    assert_eq!(parsed.release_group.as_deref(), Some("Nekomoe kissaten"));
    assert_eq!(parsed.title_guess, "Jigokuraku");
    assert_eq!(parsed.season_number, Some(1));
    assert_eq!(parsed.episode_number, Some(25));
}

#[test]
fn bracketed_filename_series_replaces_date_directory_title() {
    let mut file = resource_variant("[Nekomoe kissaten][Jigokuraku][21][1080p][JPSC].mp4");
    file.video_codec = Some("H.264".to_string());
    file.series_title = Some("202604".to_string());
    file.title_guess = "202604".to_string();

    assert_eq!(
        detected_series_for_file(&file, rules()).as_deref(),
        Some("Jigokuraku")
    );
}

#[test]
fn parses_release_group_title_dash_episode_name() {
    let parsed = parse_name(
        "[LoliHouse] Fate strange Fake - 01 [WebRip 1080p HEVC-10bit AAC SRTx2].mkv",
        rules(),
    );

    assert_eq!(parsed.release_group.as_deref(), Some("LoliHouse"));
    assert_eq!(parsed.title_guess, "Fate strange Fake");
    assert_eq!(parsed.season_number, Some(1));
    assert_eq!(parsed.episode_number, Some(1));
    assert_eq!(parsed.source.as_deref(), Some("WEBRip"));
}

#[test]
fn parses_seed_raws_monogatari_episode_name() {
    let parsed = parse_name(
        "[Seed-Raws] Bakemonogatari - 01 (BD 1280x720 AVC AACx2).mp4",
        rules(),
    );

    assert_eq!(parsed.release_group.as_deref(), Some("Seed-Raws"));
    assert_eq!(parsed.title_guess, "Bakemonogatari");
    assert_eq!(parsed.season_number, Some(1));
    assert_eq!(parsed.episode_number, Some(1));
    assert_eq!(
        infer_series_family_title(&parsed.title_guess).as_deref(),
        Some("Monogatari")
    );
}

#[test]
fn leading_number_episode_uses_directory_series() {
    let parsed = parse_name("01 - Awakening [BDRip 1080p].mkv", rules());

    assert_eq!(parsed.title_guess, "未命名资源");
    assert_eq!(parsed.season_number, Some(1));
    assert_eq!(parsed.episode_number, Some(1));
    assert_eq!(
        infer_video_series(
            "/library/Some Anime/01 - Awakening [BDRip 1080p].mkv",
            "/library",
            &parsed,
            rules()
        ),
        (
            Some("Some Anime".to_string()),
            Some("directory".to_string())
        )
    );
}

#[test]
fn technical_only_number_episode_uses_directory_series() {
    let parsed = parse_name("10 [1080p][BDRip].mkv", rules());

    assert_eq!(parsed.title_guess, "未命名资源");
    assert_eq!(parsed.season_number, Some(1));
    assert_eq!(parsed.episode_number, Some(10));
}

#[test]
fn numeric_movie_title_stays_filename_series() {
    let parsed = parse_name("12 Angry Men.mkv", rules());

    assert_eq!(parsed.title_guess, "12 Angry Men");
    assert_eq!(parsed.season_number, None);
    assert_eq!(parsed.episode_number, None);
}

#[test]
fn normalizes_case_and_strips_video_technical_suffix() {
    assert_eq!(normalize_series_title("kara no kyoukai"), "Kara no Kyoukai");
    assert_eq!(
        normalize_series_title("Kara no Kyoukai - BD-BOX Disc8 Remix (BD 12"),
        "Kara no Kyoukai"
    );
}

#[test]
fn recognizes_monogatari_title_family() {
    let mut file = resource_variant("Bakemonogatari - 01.mkv");
    file.file_size = 10;
    file.video_codec = Some("H.264".to_string());
    file.series_title = Some("Bakemonogatari".to_string());
    file.series_source = Some("filename".to_string());

    assert_eq!(
        infer_series_family(
            "/library/Bakemonogatari/Bakemonogatari - 01.mkv",
            "/library",
            file.series_title.as_deref().expect("series"),
            rules()
        )
        .as_deref(),
        Some("Monogatari")
    );
}

#[test]
fn parses_artist_title_from_music_filename() {
    let parsed = infer_artist_title_from_filename("artist name - song title.flac", rules());

    assert_eq!(
        parsed,
        Some(("artist name".to_string(), "song title".to_string()))
    );
}

#[test]
fn explicit_music_filename_artist_precedes_directory() {
    let probe = MediaProbe {
        has_audio: true,
        ..MediaProbe::default()
    };
    let metadata = infer_music_metadata(
        &probe,
        "/OST/Directory Artist/Album/File Artist - Song.flac",
        "/OST",
        "File Artist - Song.flac",
        rules(),
    );

    assert_eq!(metadata.0.as_deref(), Some("File Artist"));
    assert_eq!(metadata.3.as_deref(), Some("filename"));
}

#[test]
fn numeric_track_prefix_uses_directory_artist() {
    let probe = MediaProbe {
        has_audio: true,
        ..MediaProbe::default()
    };
    let metadata = infer_music_metadata(
        &probe,
        "/OST/Directory Artist/Album/01 - Song.flac",
        "/OST",
        "01 - Song.flac",
        rules(),
    );

    assert_eq!(metadata.0.as_deref(), Some("Directory Artist"));
    assert_eq!(metadata.3.as_deref(), Some("directory"));
}

#[test]
fn music_directory_metadata_skips_disc_folders() {
    let probe = MediaProbe {
        has_audio: true,
        ..MediaProbe::default()
    };
    let metadata = infer_music_metadata(
        &probe,
        "/OST/Example Artist/Example Album/CD1/01.flac",
        "/OST",
        "01.flac",
        rules(),
    );

    assert_eq!(metadata.0.as_deref(), Some("Example Artist"));
    assert_eq!(metadata.1.as_deref(), Some("Example Album"));
}

#[test]
fn generic_episode_filename_uses_cleaned_directory_title() {
    let parsed = parse_name("Episode 01.mkv", rules());
    let detected = infer_video_series(
        "/library/[Group] Example Show [BDRip 1080p]/Season 01/Episode 01.mkv",
        "/library",
        &parsed,
        rules(),
    );

    assert_eq!(detected.0.as_deref(), Some("Example Show"));
    assert_eq!(detected.1.as_deref(), Some("directory"));
}

#[test]
fn numeric_episode_uses_selected_root_directory_title() {
    let parsed = parse_name("01.mkv", rules());
    let detected = infer_video_series(
        "/library/Example Show/01.mkv",
        "/library/Example Show",
        &parsed,
        rules(),
    );

    assert_eq!(detected.0.as_deref(), Some("Example Show"));
    assert_eq!(detected.1.as_deref(), Some("directory"));
}

#[test]
fn episode_directory_is_skipped_when_detecting_series() {
    let parsed = parse_name("Episode 01.mkv", rules());
    let detected = infer_video_series(
        "/library/Example Show/S01E01/Episode 01.mkv",
        "/library",
        &parsed,
        rules(),
    );

    assert_eq!(detected.0.as_deref(), Some("Example Show"));
    assert_eq!(detected.1.as_deref(), Some("directory"));
}

#[test]
fn directory_title_strips_order_season_and_release_tags() {
    assert_eq!(
        clean_directory_title("01 - Fate strange Fake Season 2 [WEB-DL 1080p]").as_deref(),
        Some("Fate Strange Fake")
    );
    assert_eq!(
        clean_directory_title("Kara no Kyoukai - BD-BOX Disc8 Remix (BD 12").as_deref(),
        Some("Kara no Kyoukai")
    );
    assert_eq!(
        clean_directory_title("Example Show 第2季").as_deref(),
        Some("Example Show")
    );
    assert_eq!(
        clean_directory_title("Example Show Part 2").as_deref(),
        Some("Example Show")
    );
    assert_eq!(
        clean_directory_title("86 Eighty-Six").as_deref(),
        Some("86 Eighty-Six")
    );
}

#[test]
fn nested_series_directory_can_define_family() {
    assert_eq!(
        infer_series_family(
            "/library/Fate/Fate strange Fake/Episode 01.mkv",
            "/library",
            "Fate Strange Fake",
            rules()
        )
        .as_deref(),
        Some("Fate")
    );
}
