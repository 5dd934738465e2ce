use media_administrator::directories::{
    clean_directory_title, family_from_candidates, infer_album_from_directory, infer_artist_from_directory,
    infer_series_from_directory, infer_video_series, relative_directory_path,
    relative_parent_components,
};
use media_administrator::episodes::{
    detect_anime_episode, detect_leading_episode, detect_release_group, detect_season_episode,
    detect_source, infer_series_from_file_name, is_confident_filename_title, parse_name,
    strip_release_group_prefix,
};
use media_administrator::music::{
    choose_music_metadata, infer_artist_title_from_filename, infer_music_title_from_filename,
    is_plausible_filename_artist,
};
use media_administrator::paths::PathRules;
use media_administrator::probe::MediaProbe;
use media_administrator::titles::{
    build_item_key, canonicalize_ascii_title, clean_group_name, clean_metadata_value, clean_title,
    group_source_key, infer_series_family_title, is_detected_title, is_generated_directory_title,
    is_generic_filename_title, is_generic_music_directory, is_generic_video_directory,
    media_directory_match_key, music_artist_source_label, normalize_key, normalize_series_title,
    series_source_label, should_replace_stored_series,
};

fn rules() -> PathRules {
    PathRules::of_this_machine()
}

#[test]
fn keys_are_lower_case_with_dashes() {
    assert_eq!(normalize_key("Kara no Kyoukai!"), "kara-no-kyoukai");
    assert_eq!(normalize_key("  A--B  c_D "), "a-b-c-d");
    assert_eq!(normalize_key("ÄRZTE 第2季"), "ärzte-第2季");
    assert_eq!(normalize_key("..."), "");
}

#[test]
fn group_keys_carry_their_kind() {
    assert_eq!(
        group_source_key("music_artist", "Some Artist"),
        "music_artist:some-artist"
    );
    assert_eq!(group_source_key("video_series", "???"), "video_series:unknown");
    assert_eq!(
        group_source_key("video_series", "SOME show"),
        group_source_key("video_series", "some-Show")
    );
    assert_eq!(media_directory_match_key("music", "/a/b"), "music:/a/b");
}

#[test]
fn item_keys_hold_season_and_episode() {
    assert_eq!(
        build_item_key("Some Show", Some(1), Some(2)),
        "episode:some-show:s01:e002"
    );
    assert_eq!(
        build_item_key("Some Show", Some(12), Some(345)),
        "episode:some-show:s12:e345"
    );
    assert_eq!(build_item_key("Some Show", None, Some(2)), "item:some-show");
    assert_eq!(build_item_key("Some Show", Some(1), None), "item:some-show");
}

#[test]
fn group_names_are_tidied() {
    assert_eq!(clean_group_name("_Some__Artist_").as_deref(), Some("Some Artist"));
    assert_eq!(clean_group_name(" - . - "), None);
    assert_eq!(clean_group_name(""), None);
    assert_eq!(clean_metadata_value("  a \t b\n c "), "a b c");
}

#[test]
fn titles_lose_technical_parts() {
    assert_eq!(clean_title("Some.Show.1080p.WEB-DL"), "Some Show");
    assert_eq!(clean_title("Some Show [BDRip][x265]"), "Some Show");
    assert_eq!(clean_title("Some Show (BD 12"), "Some Show");
    assert_eq!(clean_title("[1080p]"), "未命名资源");
    assert_eq!(clean_title(""), "未命名资源");
}

#[test]
fn titles_get_canonical_case() {
    assert_eq!(canonicalize_ascii_title("the lord of the rings"), "The Lord of the Rings");
    assert_eq!(canonicalize_ascii_title("NASA story"), "NASA Story");
    assert_eq!(canonicalize_ascii_title("eighty-six"), "Eighty-Six");
    assert_eq!(canonicalize_ascii_title("86 eighty-six"), "86 Eighty-Six");
    assert_eq!(canonicalize_ascii_title("物語 x2y"), "物語 x2y");
    assert_eq!(normalize_series_title("some show - 01"), "Some Show");
    assert_eq!(normalize_series_title("1080p"), "未命名资源");
}

#[test]
fn detected_titles_are_more_than_numbers() {
    assert!(is_detected_title("Some Show"));
    assert!(is_detected_title("1917"));
    assert!(is_detected_title("20491"));
    assert!(!is_detected_title("01"));
    assert!(!is_detected_title("123"));
    assert!(!is_detected_title("202604"));
    assert!(!is_detected_title("20260401"));
    assert!(!is_detected_title("未命名资源"));
    assert!(!is_detected_title("Unknown"));
    assert!(!is_detected_title("--"));
    assert!(is_generated_directory_title("202604"));
    assert!(is_generated_directory_title("20260401"));
    assert!(!is_generated_directory_title("2026"));
    assert!(should_replace_stored_series("202604", "Some Show"));
    assert!(!should_replace_stored_series("202604", " "));
    assert!(!should_replace_stored_series("Some Show", "Other Show"));
    assert!(!should_replace_stored_series("202604", "2026.04".replace('.', "").as_str()));
}

#[test]
fn generic_names_are_recognized() {
    assert!(is_generic_filename_title("OVA"));
    assert!(!is_generic_filename_title("Some Show"));
    assert!(is_generic_music_directory("CD 2"));
    assert!(is_generic_music_directory("Soundtrack"));
    assert!(!is_generic_music_directory("Some Artist"));
    assert!(is_generic_video_directory("Season 02"));
    assert!(is_generic_video_directory("S01E01"));
    assert!(is_generic_video_directory("Movies"));
    assert!(!is_generic_video_directory("Some Show"));
}

#[test]
fn sources_have_labels() {
    assert_eq!(music_artist_source_label("tag"), "标签");
    assert_eq!(music_artist_source_label("directory"), "目录");
    assert_eq!(music_artist_source_label("filename"), "文件名");
    assert_eq!(music_artist_source_label("unknown"), "未知来源");
    assert_eq!(series_source_label("filename"), "文件名");
    assert_eq!(series_source_label("directory"), "目录");
    assert_eq!(series_source_label("tag"), "未知来源");
}

#[test]
fn seasons_and_episodes_are_found() {
    assert_eq!(
        detect_season_episode("Some.Show.S02E13.1080p"),
        Some(("Some.Show.".to_string(), 2, 13))
    );
    assert_eq!(
        detect_season_episode("Some Show 1x02"),
        Some(("Some Show".to_string(), 1, 2))
    );
    assert_eq!(detect_season_episode("Some Show"), None);
    assert_eq!(
        detect_anime_episode("Some Show - 07v2 [1080p]"),
        Some(("Some Show".to_string(), 7))
    );
    assert_eq!(detect_anime_episode("Some Show - 0"), None);
    assert_eq!(detect_leading_episode("07"), Some(7));
    assert_eq!(detect_leading_episode("07 - Name"), Some(7));
    assert_eq!(detect_leading_episode("12 Angry Men"), None);
    assert_eq!(detect_leading_episode("1917"), None);
}

#[test]
fn release_groups_and_sources_are_found() {
    assert_eq!(detect_release_group("[Group] Name").as_deref(), Some("Group"));
    assert_eq!(detect_release_group("Name.1080p-GRP").as_deref(), Some("GRP"));
    assert_eq!(detect_release_group("Name"), None);
    assert_eq!(strip_release_group_prefix("[Group] Name"), "Name");
    assert_eq!(strip_release_group_prefix("Name"), "Name");
    assert_eq!(detect_source("Name web.dl").as_deref(), Some("WEB-DL"));
    assert_eq!(detect_source("name.bdrip.x264").as_deref(), Some("BDRip"));
    assert_eq!(detect_source("Name"), None);
}

#[test]
fn season_episode_names_are_parsed() {
    let parsed = parse_name("Some.Show.S02E13.WEB.DL.1080p-GRP.mkv", rules());
    assert_eq!(parsed.title_guess, "Some Show");
    assert_eq!(parsed.season_number, Some(2));
    assert_eq!(parsed.episode_number, Some(13));
    assert_eq!(parsed.release_group.as_deref(), Some("GRP"));
    assert_eq!(parsed.source.as_deref(), Some("WEB-DL"));
}

#[test]
fn file_names_tell_series_with_confidence() {
    assert_eq!(
        infer_series_from_file_name("Some Show - 01.mkv", rules()).as_deref(),
        Some("Some Show")
    );
    assert_eq!(infer_series_from_file_name("01.mkv", rules()), None);
    assert_eq!(infer_series_from_file_name("OVA.mkv", rules()), None);
    assert!(is_confident_filename_title("Some Show.mkv", "Some Show", rules()));
    assert!(!is_confident_filename_title("Some Show.mkv", "ova", rules()));
}

#[test]
fn numeric_titles_are_kept() {
    let parsed = parse_name("1917.mkv", rules());
    assert_eq!(parsed.title_guess, "1917");
    assert_eq!(
        infer_video_series("/Movies/1917.mkv", "/Movies", &parsed, rules()),
        (Some("1917".to_string()), Some("filename".to_string()))
    );
    assert_eq!(clean_directory_title("1917").as_deref(), Some("1917"));
    assert_eq!(clean_directory_title("01"), None);
    assert_eq!(
        infer_video_series("/library/1917/1917.mkv", "/library", &parsed, rules()),
        (Some("1917".to_string()), Some("directory".to_string()))
    );
    let bare = parse_name("01.mkv", rules());
    assert_eq!(
        infer_video_series("/library/1917/01.mkv", "/library", &bare, rules()),
        (Some("1917".to_string()), Some("directory".to_string()))
    );
    let parsed = parse_name("86 Eighty-Six - 01.mkv", rules());
    assert_eq!(
        infer_video_series("/anime/x/86 Eighty-Six - 01.mkv", "/anime", &parsed, rules()),
        (Some("86 Eighty-Six".to_string()), Some("filename".to_string()))
    );
}

#[test]
fn videos_without_any_name_are_unknown() {
    let parsed = parse_name("01.mkv", rules());
    assert_eq!(
        infer_video_series("/Movies/01.mkv", "/Movies", &parsed, rules()),
        (Some("未识别系列".to_string()), Some("unknown".to_string()))
    );
}

#[test]
fn nearest_directory_tells_the_series() {
    assert_eq!(
        infer_series_from_directory("/v/Outer/Inner/01.mkv", "/v", rules()).as_deref(),
        Some("Inner")
    );
    assert_eq!(
        infer_series_from_directory("/v/Outer/202604/Season 1/01.mkv", "/v", rules()).as_deref(),
        Some("Outer")
    );
    assert_eq!(
        infer_series_from_directory("/Some Show/Season 1/01.mkv", "/Some Show", rules()).as_deref(),
        Some("Some Show")
    );
    assert_eq!(infer_series_from_directory("/tv/01.mkv", "/tv", rules()), None);
}

#[test]
fn parent_directories_are_listed_below_the_root() {
    assert_eq!(
        relative_parent_components("/r/a_b/c/file.mkv", "/r", rules()),
        vec!["a b".to_string(), "c".to_string()]
    );
    assert!(relative_parent_components("/r/file.mkv", "/r", rules()).is_empty());
}

#[test]
fn artists_and_albums_come_from_directories() {
    let path = "/m/Artist/Album/Disc 1/01.flac";
    assert_eq!(
        infer_artist_from_directory(path, "/m", rules()).as_deref(),
        Some("Artist")
    );
    assert_eq!(
        infer_album_from_directory(path, "/m", rules()).as_deref(),
        Some("Album")
    );
    assert_eq!(infer_artist_from_directory("/m/01.flac", "/m", rules()), None);
    assert_eq!(infer_album_from_directory("/m/Artist/01.flac", "/m", rules()), None);
}

#[test]
fn families_continue_in_the_series() {
    let candidates = vec!["Fate".to_string(), "Fate Zero".to_string()];
    assert_eq!(
        family_from_candidates(&candidates, "fate-zero").as_deref(),
        Some("Fate")
    );
    assert_eq!(family_from_candidates(&candidates, "fate"), None);
    assert_eq!(family_from_candidates(&candidates, "other"), None);
    assert_eq!(infer_series_family_title("Monogatari"), None);
    assert_eq!(
        infer_series_family_title("Nisemonogatari").as_deref(),
        Some("Monogatari")
    );
}

#[test]
fn directories_are_shown_below_the_root() {
    assert_eq!(relative_directory_path("/r", "/r/a/b", rules()), "a/b");
    assert_eq!(relative_directory_path("/r", "/r", rules()), "r");
    assert_eq!(relative_directory_path("/r", "/", rules()), "根目录");
    assert_eq!(relative_directory_path("/r", "/s/t", rules()), "t");
}

#[test]
fn music_file_names_state_artist_and_title() {
    assert_eq!(
        infer_artist_title_from_filename("Artist - Song.mp3", rules()),
        Some(("Artist".to_string(), "Song".to_string()))
    );
    assert_eq!(infer_artist_title_from_filename("01 - Song.mp3", rules()), None);
    assert_eq!(infer_artist_title_from_filename("Song.mp3", rules()), None);
    assert!(is_plausible_filename_artist("Artist"));
    assert!(!is_plausible_filename_artist("01"));
    assert!(!is_plausible_filename_artist("CD1"));
    assert_eq!(
        infer_music_title_from_filename("Some_Song.mp3", rules()).as_deref(),
        Some("Some Song")
    );
    assert_eq!(infer_music_title_from_filename("[1080p].mp3", rules()), None);
}

#[test]
fn tags_come_before_names_and_directories() {
    let tagged = MediaProbe {
        music_artist: Some("Tagged".to_string()),
        music_album: Some("Tag Album".to_string()),
        ..MediaProbe::default()
    };
    let named = Some(("Named".to_string(), "Song".to_string()));
    let directory = Some("Directory".to_string());
    let result = choose_music_metadata(
        &tagged,
        named.clone(),
        Some("Title".to_string()),
        directory.clone(),
        Some("Album".to_string()),
    );
    assert_eq!(result.0.as_deref(), Some("Tagged"));
    assert_eq!(result.1.as_deref(), Some("Tag Album"));
    assert_eq!(result.2.as_deref(), Some("Song"));
    assert_eq!(result.3.as_deref(), Some("tag"));

    let untagged = MediaProbe::default();
    let result = choose_music_metadata(&untagged, named, None, directory.clone(), None);
    assert_eq!(result.0.as_deref(), Some("Named"));
    assert_eq!(result.3.as_deref(), Some("filename"));
    let result = choose_music_metadata(&untagged, None, None, directory, None);
    assert_eq!(result.0.as_deref(), Some("Directory"));
    assert_eq!(result.3.as_deref(), Some("directory"));
    let result = choose_music_metadata(&untagged, None, None, None, None);
    assert_eq!(result.0.as_deref(), Some("未知作者"));
    assert_eq!(result.1, None);
    assert_eq!(result.2, None);
    assert_eq!(result.3.as_deref(), Some("unknown"));
}

#[test]
fn keys_are_keys_of_themselves() {
    for name in ["Kara no Kyoukai!", "  A--B  c_D ", "ÄRZTE 第2季", "...", "a"] {
        let key = normalize_key(name);
        assert_eq!(normalize_key(&key), key);
        assert!(!key.starts_with('-') && !key.ends_with('-') && !key.contains("--"));
    }
    assert_eq!(normalize_key("SOME-Show 2"), normalize_key("some-show 2"));
}

#[test]
fn canonical_titles_are_not_changed_again() {
    for title in ["the  lord OF the rings", "kara no kyoukai", "NASA x2y o'neill-the-great"] {
        let made = canonicalize_ascii_title(title);
        assert_eq!(canonicalize_ascii_title(&made), made);
        assert!(made.eq_ignore_ascii_case(&title.split_whitespace().collect::<Vec<_>>().join(" ")));
    }
    assert_eq!(canonicalize_ascii_title("the  x2y OF"), "The x2y OF");
}

#[test]
fn clean_names_are_not_changed_again() {
    assert_eq!(clean_group_name("__ a_b   c.. ").as_deref(), Some("a b c"));
    assert_eq!(clean_group_name("a b c").as_deref(), Some("a b c"));
    assert_eq!(clean_group_name(" -._\t- "), None);
}

#[test]
fn numbers_of_episodes_leave_the_series_to_the_directory() {
    let parsed = parse_name("1001.mkv", rules());
    assert_eq!(
        infer_video_series("/library/One Piece/1001.mkv", "/library", &parsed, rules()),
        (Some("One Piece".to_string()), Some("directory".to_string()))
    );
    let parsed = parse_name("0012.mkv", rules());
    assert_eq!(
        infer_video_series("/library/Show/0012.mkv", "/library", &parsed, rules()),
        (Some("Show".to_string()), Some("directory".to_string()))
    );
    assert_eq!(infer_series_from_file_name("1001.mkv", rules()), None);
    assert!(!is_confident_filename_title("1917.mkv", "1917", rules()));
}

#[test]
fn sources_are_found_in_any_case() {
    assert_eq!(detect_source("a web-rip bdrip").as_deref(), Some("BDRip"));
    assert_eq!(detect_source("nothing here"), None);
}
