use media_administrator::grouping::{group_placements, GroupEntry, Placement};
use media_administrator::groups::MediaGroupBuilder;
use media_administrator::library::{load_library, LibraryData};
use media_administrator::media::ResourceVariant;
use media_administrator::paths::PathRules;
use media_administrator::rules::{
    apply_merge_rule, choose_series, detected_artist_for_file, detected_series_for_file,
    LibraryRules, MergeRules,
};

fn rules() -> PathRules {
    PathRules::of_this_machine()
}

fn no_rules() -> LibraryRules {
    LibraryRules {
        music_artist: MergeRules::new(),
        video_series: MergeRules::new(),
        video_family: MergeRules::new(),
    }
}

fn file(path: &str, root: &str, kind: &str, size: i64) -> ResourceVariant {
    ResourceVariant {
        id: 1,
        path: path.to_string(),
        file_name: path.rsplit('/').next().unwrap_or_default().to_string(),
        root_path: root.to_string(),
        file_size: size,
        duration_seconds: None,
        container: None,
        video_codec: None,
        audio_codec: None,
        width: None,
        height: None,
        resolution: None,
        source: None,
        release_group: None,
        season_number: None,
        episode_number: None,
        title_guess: "未命名资源".to_string(),
        media_kind: kind.to_string(),
        music_artist: None,
        music_album: None,
        music_title: None,
        music_artist_source: None,
        series_title: None,
        series_source: None,
    }
}

fn video(path: &str, root: &str, series: &str, source: &str, size: i64) -> ResourceVariant {
    ResourceVariant {
        series_title: Some(series.to_string()),
        series_source: Some(source.to_string()),
        ..file(path, root, "video", size)
    }
}

fn music(path: &str, root: &str, artist: &str, source: &str, size: i64) -> ResourceVariant {
    ResourceVariant {
        music_artist: Some(artist.to_string()),
        music_artist_source: Some(source.to_string()),
        ..file(path, root, "music", size)
    }
}

fn shown(files: Vec<ResourceVariant>, query: Option<&str>) -> LibraryData {
    load_library(&files, &no_rules(), query, rules())
}

fn entry(key: &str, name: &str, subtitle: Option<&str>, size: i64) -> GroupEntry {
    GroupEntry {
        key: key.to_string(),
        name: name.to_string(),
        subtitle: subtitle.map(|text| text.to_string()),
        family_name: None,
        file_size: size,
        source_key: format!("source:{name}"),
        resource_key: format!("resource:{name}"),
    }
}

#[test]
fn builders_count_files() {
    let mut builder = MediaGroupBuilder::new(
        "k".to_string(),
        "Name".to_string(),
        Some("s".to_string()),
        None,
    );
    builder.add_file(3, "b".to_string(), "y".to_string(), Some("s".to_string()));
    builder.add_file(4, "a".to_string(), "y".to_string(), Some("s".to_string()));
    builder.add_file(5, "b".to_string(), "y".to_string(), Some("s".to_string()));
    let group = builder.finish();
    assert_eq!(group.file_count, 3);
    assert_eq!(group.total_size, 12);
    assert_eq!(group.subtitle.as_deref(), Some("s"));
    assert_eq!(group.source_keys, vec!["a".to_string(), "b".to_string()]);
    assert_eq!(group.resource_keys, vec!["y".to_string()]);
    assert!(group.child_groups.is_empty());
}

#[test]
fn subtitles_stay_while_files_agree() {
    let place = |subtitle: Option<&str>| Placement {
        group: entry("k", "Name", subtitle, 1),
        child: None,
    };
    let groups = group_placements(vec![place(Some("a")), place(Some("a"))]);
    assert_eq!(groups[0].subtitle.as_deref(), Some("a"));
    let groups = group_placements(vec![place(Some("a")), place(Some("b")), place(Some("a"))]);
    assert_eq!(groups[0].subtitle, None);
    assert_eq!(groups[0].file_count, 3);
    let groups = group_placements(vec![place(None), place(Some("b"))]);
    assert_eq!(groups[0].subtitle, None);
}

#[test]
fn groups_hold_groups() {
    let place = |child: &str, size: i64| Placement {
        group: entry("family", "Family", None, size),
        child: Some(entry(child, child, None, size)),
    };
    let groups = group_placements(vec![place("b", 1), place("A", 2), place("b", 4)]);
    assert_eq!(groups.len(), 1);
    assert_eq!(groups[0].file_count, 3);
    assert_eq!(groups[0].total_size, 7);
    assert_eq!(groups[0].child_groups.len(), 2);
    assert_eq!(groups[0].child_groups[0].name, "A");
    assert_eq!(groups[0].child_groups[1].name, "b");
    assert_eq!(groups[0].child_groups[1].file_count, 2);
    assert_eq!(groups[0].child_groups[1].total_size, 5);
}

#[test]
fn sizes_wrap_around() {
    let place = |size: i64| Placement {
        group: entry("k", "Name", None, size),
        child: None,
    };
    let groups = group_placements(vec![place(i64::MAX), place(1), place(-1)]);
    assert_eq!(groups[0].total_size, i64::MAX);
    let groups = group_placements(vec![place(i64::MAX), place(1)]);
    assert_eq!(groups[0].total_size, i64::MIN);
}

#[test]
fn directories_are_summed_and_sorted() {
    let library = shown(
        vec![
            video("/v/b/1.mkv", "/v", "Show", "filename", 5),
            video("/v/A/1.mkv", "/v", "Show", "filename", 6),
            video("/v/b/2.mkv", "/v", "Show", "filename", 7),
            video("/v/top.mkv", "/v", "Show", "filename", 8),
        ],
        None,
    );
    let directories = &library.video_directories;
    assert_eq!(directories.len(), 3);
    assert_eq!(directories[0].relative_path, "A");
    assert_eq!(directories[1].relative_path, "b");
    assert_eq!(directories[2].relative_path, "v");
    assert_eq!(directories[1].key, "/v/b");
    assert_eq!(directories[1].path, "/v/b");
    assert_eq!(directories[1].name, "b");
    assert_eq!(directories[1].parent_name.as_deref(), Some("v"));
    assert_eq!(directories[1].media_kind, "video");
    assert_eq!(directories[1].file_count, 2);
    assert_eq!(directories[1].total_size, 12);
    assert!(library.music_directories.is_empty());
    assert!(library.music_artists.is_empty());
}

#[test]
fn only_music_and_videos_are_shown() {
    let library = shown(
        vec![
            file("/v/a.mkv", "/v", "ignored", 1),
            file("/v/b.mkv", "/v", "", 1),
        ],
        None,
    );
    assert!(library.video_directories.is_empty());
    assert!(library.video_series.is_empty());
}

#[test]
fn groups_are_named_by_what_is_stored() {
    let library = shown(
        vec![
            music("/m/x/1.flac", "/m", "Zed", "tag", 1),
            music("/m/x/2.flac", "/m", "abe", "tag", 2),
            music("/m/x/3.flac", "/m", "ABE", "directory", 4),
            file("/m/Some Artist/Album/4.flac", "/m", "music", 8),
            file("/m/5.flac", "/m", "music", 16),
        ],
        None,
    );
    let names: Vec<&str> = library
        .music_artists
        .iter()
        .map(|group| group.name.as_str())
        .collect();
    assert_eq!(names, vec!["abe", "Some Artist", "Zed", "未知作者"]);
    assert_eq!(library.music_artists[0].key, "music_artist:abe");
    assert_eq!(library.music_artists[0].file_count, 2);
    assert_eq!(library.music_artists[0].total_size, 6);
    assert_eq!(library.music_artists[0].subtitle, None);
    assert_eq!(library.music_artists[2].subtitle.as_deref(), Some("标签"));
}

#[test]
fn families_hold_series() {
    let library = shown(
        vec![
            video(
                "/v/Fate/Fate Zero/Fate Zero - 01.mkv",
                "/v",
                "Fate Zero",
                "filename",
                1,
            ),
            video("/v/x/Bakemonogatari - 01.mkv", "/v", "Bakemonogatari", "filename", 2),
            video("/v/y/Other - 01.mkv", "/v", "Other", "directory", 4),
        ],
        None,
    );
    let names: Vec<&str> = library
        .video_series
        .iter()
        .map(|group| group.name.as_str())
        .collect();
    assert_eq!(names, vec!["Fate", "Monogatari", "Other"]);
    let family = &library.video_series[0];
    assert_eq!(family.subtitle.as_deref(), Some("作品族"));
    assert_eq!(family.family_name, None);
    assert_eq!(family.source_keys, vec!["video_series:fate".to_string()]);
    assert_eq!(family.resource_keys, vec!["video_series:fate-zero".to_string()]);
    assert_eq!(family.child_groups[0].name, "Fate Zero");
    assert_eq!(family.child_groups[0].family_name.as_deref(), Some("Fate"));
    assert_eq!(family.child_groups[0].subtitle.as_deref(), Some("文件名"));
    assert!(library.video_series[2].child_groups.is_empty());
    assert_eq!(library.video_series[2].subtitle.as_deref(), Some("目录"));
}

#[test]
fn unknown_series_have_a_group() {
    let library = shown(vec![file("/tv/01.mkv", "/tv", "video", 1)], None);
    assert_eq!(library.video_series[0].name, "未识别系列");
}

#[test]
fn family_rules_come_before_directories() {
    let files = vec![video(
        "/v/Fate/Fate Zero/Fate Zero - 01.mkv",
        "/v",
        "Fate Zero",
        "filename",
        1,
    )];
    let mut with_rules = no_rules();
    with_rules.video_family.insert(
        "video_series:fate-zero".to_string(),
        "Heroes".to_string(),
    );
    with_rules
        .video_series
        .insert("video_series:fate-zero".to_string(), "F/Z".to_string());
    let library = load_library(&files, &with_rules, None, rules());
    assert_eq!(library.video_series[0].name, "Heroes");
    assert_eq!(library.video_series[0].child_groups[0].name, "F/Z");
    assert_eq!(library.video_series[0].child_groups[0].key, "video_series:f-z");
    assert_eq!(
        library.video_series[0].child_groups[0].source_keys,
        vec!["video_series:fate-zero".to_string()]
    );
}

#[test]
fn rules_put_series_in_one_group() {
    let files = vec![
        video("/v/a/1.mkv", "/v", "Show One", "filename", 1),
        video("/v/b/2.mkv", "/v", "show.one", "filename", 2),
        video("/v/c/3.mkv", "/v", "Other", "filename", 4),
    ];
    let plain = load_library(&files, &no_rules(), None, rules());
    assert_eq!(plain.video_series.len(), 2);
    assert_eq!(plain.video_series[1].key, "video_series:show-one");
    assert_eq!(plain.video_series[1].file_count, 2);

    let mut with_rules = no_rules();
    with_rules
        .video_series
        .insert("video_series:show-one".to_string(), "All".to_string());
    with_rules
        .video_series
        .insert("video_series:other".to_string(), "All".to_string());
    let merged = load_library(&files, &with_rules, None, rules());
    assert_eq!(merged.video_series.len(), 1);
    assert_eq!(merged.video_series[0].key, "video_series:all");
    assert_eq!(merged.video_series[0].name, "All");
    assert_eq!(merged.video_series[0].total_size, 7);
}

#[test]
fn searches_find_files_groups_and_directories() {
    let files = || {
        vec![
            video("/v/Alpha/one.mkv", "/v", "First Show", "filename", 1),
            video("/v/Beta/two.mkv", "/v", "Second Show", "filename", 1),
            music("/v/Alpha/one.flac", "/v", "Artist", "tag", 1),
        ]
    };
    let by_file = shown(files(), Some(" TWO "));
    assert_eq!(by_file.video_directories.len(), 1);
    assert_eq!(by_file.video_directories[0].relative_path, "Beta");
    assert_eq!(by_file.video_series.len(), 1);
    assert_eq!(by_file.video_series[0].name, "Second Show");
    assert!(by_file.music_artists.is_empty());

    let by_directory = shown(files(), Some("alpha"));
    assert_eq!(by_directory.video_directories.len(), 1);
    assert_eq!(by_directory.music_directories.len(), 1);
    assert_eq!(by_directory.video_series[0].name, "First Show");

    let by_name = shown(files(), Some("second"));
    assert!(by_name.video_directories.is_empty());
    assert_eq!(by_name.video_series.len(), 1);

    let by_subtitle = shown(files(), Some("标签"));
    assert_eq!(by_subtitle.music_artists.len(), 1);
    assert!(by_subtitle.video_series.is_empty());

    let nothing = shown(files(), Some("nowhere"));
    assert!(nothing.video_directories.is_empty());
    assert!(nothing.music_artists.is_empty());

    let all = shown(files(), Some("   "));
    assert_eq!(all.video_directories.len(), 2);
}

#[test]
fn searches_keep_families_of_found_series() {
    let files = vec![
        video("/v/Fate/Fate Zero/a.mkv", "/v", "Fate Zero", "filename", 1),
        video("/v/Fate/Fate Stay/b.mkv", "/v", "Fate Stay", "filename", 1),
    ];
    let library = shown(files, Some("zero"));
    assert_eq!(library.video_series.len(), 1);
    assert_eq!(library.video_series[0].name, "Fate");
    assert_eq!(library.video_series[0].file_count, 2);
    assert_eq!(library.video_series[0].child_groups.len(), 1);
    assert_eq!(library.video_series[0].child_groups[0].name, "Fate Zero");
}

#[test]
fn blank_rules_are_no_rules() {
    let mut merge_rules = MergeRules::from_rows(vec![
        ("a".to_string(), "First".to_string()),
        ("a".to_string(), "Last".to_string()),
    ]);
    assert_eq!(apply_merge_rule("a", "Name".to_string(), &merge_rules), "Last");
    assert_eq!(apply_merge_rule("b", "Name".to_string(), &merge_rules), "Name");
    merge_rules.insert("a".to_string(), "  ".to_string());
    assert_eq!(apply_merge_rule("a", "Name".to_string(), &merge_rules), "Name");
}

#[test]
fn stored_artists_come_first() {
    let mut stored = music("/m/Some Artist/Album/1.flac", "/m", "Tagged", "tag", 1);
    assert_eq!(detected_artist_for_file(&stored, rules()), "Tagged");
    stored.music_artist = Some("  ".to_string());
    assert_eq!(detected_artist_for_file(&stored, rules()), "Some Artist");
}

#[test]
fn series_are_chosen_by_priority() {
    let some = |text: &str| Some(text.to_string());
    assert_eq!(
        choose_series(some("202604"), some("Named"), None, None).as_deref(),
        Some("Named")
    );
    assert_eq!(
        choose_series(some("Stored"), some("Named"), None, None).as_deref(),
        Some("Stored")
    );
    assert_eq!(
        choose_series(some("202604"), None, some("Title"), None).as_deref(),
        Some("202604")
    );
    assert_eq!(
        choose_series(None, some("Named"), some("Title"), some("Directory")).as_deref(),
        Some("Named")
    );
    assert_eq!(
        choose_series(None, None, some("Title"), some("Directory")).as_deref(),
        Some("Title")
    );
    assert_eq!(
        choose_series(None, None, None, some("Directory")).as_deref(),
        Some("Directory")
    );
    assert_eq!(choose_series(None, None, None, None), None);
}

#[test]
fn shown_lists_add_up() {
    let files = vec![
        video("/v/b/1.mkv", "/v", "Zulu", "filename", 1),
        video("/v/a/2.mkv", "/v", "alpha", "filename", 2),
        video("/v/b/3.mkv", "/v", "Alpha", "filename", 4),
        music("/v/a/4.flac", "/v", "Someone", "tag", 8),
    ];
    let library = load_library(&files, &no_rules(), None, rules());
    let counted: usize = library.video_series.iter().map(|group| group.file_count).sum();
    assert_eq!(counted, 3);
    let size: i64 = library.video_series.iter().map(|group| group.total_size).sum();
    assert_eq!(size, 7);
    let listed: usize = library.video_directories.iter().map(|entry| entry.file_count).sum();
    assert_eq!(listed, 3);
    let size: i64 = library.video_directories.iter().map(|entry| entry.total_size).sum();
    assert_eq!(size, 7);
    assert_eq!(library.video_directories[0].relative_path, "a");
}

#[test]
fn groups_with_one_name_keep_their_order() {
    let place = |key: &str, name: &str| Placement {
        group: entry("family", "Family", None, 1),
        child: Some(entry(key, name, None, 1)),
    };
    let groups = group_placements(vec![place("2", "Same"), place("1", "same"), place("0", "A")]);
    let keys: Vec<&str> = groups[0]
        .child_groups
        .iter()
        .map(|group| group.key.as_str())
        .collect();
    assert_eq!(keys, vec!["0", "2", "1"]);
}

#[test]
fn stored_numbers_come_behind_directories() {
    let titled = |path: &str, title: &str| ResourceVariant {
        title_guess: title.to_string(),
        ..file(path, "/library", "video", 1)
    };
    let series = |file: ResourceVariant| detected_series_for_file(&file, rules());
    assert_eq!(
        series(titled("/library/One Piece/1001.mkv", "1001")).as_deref(),
        Some("One Piece")
    );
    assert_eq!(series(titled("/library/Show/01.mkv", "Other")).as_deref(), Some("Other"));
    let movie = ResourceVariant {
        title_guess: "1917".to_string(),
        ..file("/Movies/1917.mkv", "/Movies", "video", 1)
    };
    assert_eq!(series(movie).as_deref(), Some("1917"));
}
