use media_administrator::analysis::{AnalyzeSkip, AnalyzedFile, SCAN_STOPPED_MESSAGE};
use media_administrator::config::{prepare_scan_config, shown_paths, RootSpec, ScanPath};
use media_administrator::paths::{
    build_excluded_roots, display_path_string, is_descendant_key, is_excluded_path,
    normalized_path_string, PathRules, ResolvedPath,
};
use media_administrator::report::{
    command_output_base, command_step, ensure_scan_not_stopped, failed_event, failure_event,
    may_start_scan, may_stop_scan, maybe_emit_scan_progress, summarize_failure, summarize_outcome,
    CommandState, CommandStep, ScanTimes,
};
use media_administrator::scan::{
    FailedRoot, Scan, ScanAction, ScanCounters, ScanNotice, ScanOutcome, WalkEntry,
};

fn rules() -> PathRules {
    PathRules::of_this_machine()
}

fn given(path: &str) -> ScanPath {
    ScanPath {
        given: path.to_string(),
        resolved: Ok(path.trim().to_string()),
    }
}

fn config_error(paths: Vec<ScanPath>, excluded: Vec<ScanPath>) -> String {
    match prepare_scan_config(&paths, &excluded, rules()) {
        Ok(_) => panic!("the configuration is valid"),
        Err(error) => error,
    }
}

fn root(path: &str) -> RootSpec {
    RootSpec {
        path: path.to_string(),
        display_path: path.to_string(),
        key: path.to_string(),
    }
}

fn found(path: &str) -> WalkEntry {
    WalkEntry::Found {
        path: path.to_string(),
        is_file: true,
    }
}

fn analyzed(path: &str) -> AnalyzedFile {
    AnalyzedFile {
        path: path.to_string(),
        file_name: String::new(),
        root_path: String::new(),
        root_key: String::new(),
        directory_path: String::new(),
        media_kind: "video".to_string(),
        file_size: 0,
        modified_ms: None,
        duration_seconds: None,
        container: None,
        video_codec: None,
        audio_codec: None,
        width: None,
        height: None,
        resolution: None,
        source: None,
        release_group: None,
        season_number: None,
        episode_number: None,
        title_guess: String::new(),
        item_key: String::new(),
        music_artist: None,
        music_album: None,
        music_title: None,
        music_artist_source: None,
        music_artist_key: None,
        series_title: None,
        series_source: None,
        series_key: None,
        family_key: None,
    }
}

fn details(notices: &Vec<ScanNotice>) -> Vec<&str> {
    notices.iter().map(|notice| notice.detail.as_str()).collect()
}

fn outcome(scan: Scan) -> ScanOutcome {
    match scan.into_result() {
        Ok(outcome) => outcome,
        Err(error) => panic!("{error}"),
    }
}

fn failure(scan: Scan) -> String {
    match scan.into_result() {
        Ok(_) => panic!("the scan was not broken off"),
        Err(error) => error,
    }
}

#[test]
fn excluded_directory_skips_entire_subtree_only() {
    let excluded = build_excluded_roots(
        &vec![ResolvedPath {
            given: "/library/root/extras".to_string(),
            resolved: "/library/root/extras".to_string(),
        }],
        rules(),
    );

    assert!(is_excluded_path("/library/root/extras", &excluded, rules()));
    assert!(is_excluded_path(
        "/library/root/extras/bonus/file.mkv",
        &excluded,
        rules()
    ));
    assert!(!is_excluded_path(
        "/library/root/extras2/file.mkv",
        &excluded,
        rules()
    ));
}

#[test]
fn nested_roots_and_exclusions_are_normalized() {
    let prepared = prepare_scan_config(
        &vec![given("/library"), given("/library/anime")],
        &vec![
            given("/library/anime/extras"),
            given("/library/anime/extras/bonus"),
        ],
        rules(),
    );
    let prepared = match prepared {
        Ok(prepared) => prepared,
        Err(error) => panic!("valid scan config: {error}"),
    };

    assert_eq!(prepared.roots.len(), 1);
    assert_eq!(prepared.excluded_paths.len(), 1);
    assert!(prepare_scan_config(&vec![given("/library")], &vec![given("/outside")], rules()).is_err());
}

#[test]
fn blank_exclusions_exclude_nothing() {
    let excluded = build_excluded_roots(
        &vec![ResolvedPath {
            given: "  ".to_string(),
            resolved: "/".to_string(),
        }],
        rules(),
    );
    assert!(excluded.is_empty());
    assert!(!is_excluded_path("/a", &excluded, rules()));
}

#[test]
fn path_keys_have_no_slash_at_the_end() {
    assert_eq!(normalized_path_string("/a/b//", rules()), "/a/b");
    assert_eq!(normalized_path_string("/", rules()), "/");
    assert!(is_descendant_key("/a/b", "/a"));
    assert!(!is_descendant_key("/a", "/a"));
    assert!(!is_descendant_key("/ab", "/a"));
    assert_eq!(display_path_string("/a/b", rules()), "/a/b");
}

#[test]
fn later_roots_take_the_place_of_those_inside() {
    let prepared = match prepare_scan_config(
        &vec![
            given(" /v/a "),
            given(""),
            given("/w"),
            given("/v/b"),
            given("/v"),
            given("/v/"),
        ],
        &vec![],
        rules(),
    ) {
        Ok(prepared) => prepared,
        Err(error) => panic!("{error}"),
    };
    assert_eq!(
        shown_paths(&prepared.roots),
        vec!["/w".to_string(), "/v".to_string()]
    );
}

#[test]
fn configurations_fail_with_their_reason() {
    assert_eq!(
        config_error(vec![given("  ")], vec![]),
        "至少需要选择一个有效目录"
    );
    let lost = ScanPath {
        given: " x ".to_string(),
        resolved: Err("no directory".to_string()),
    };
    assert_eq!(
        config_error(vec![lost], vec![]),
        "无法解析扫描目录 x：no directory"
    );
    let lost = ScanPath {
        given: " x ".to_string(),
        resolved: Err("no directory".to_string()),
    };
    assert_eq!(
        config_error(vec![given("/v")], vec![lost]),
        "无法解析排除目录 x：no directory"
    );
    assert_eq!(
        config_error(vec![given("/v")], vec![given("/v/")]),
        "排除目录不能与扫描根目录相同：/v/"
    );
    assert_eq!(
        config_error(vec![given("/v")], vec![given("/w")]),
        "排除目录必须位于所选扫描目录内：/w"
    );
}

#[test]
fn scans_run_to_the_end() {
    let mut scan = Scan::begin(vec![root("/gone"), root("/half"), root("/full")], false);
    assert!(scan.action() == ScanAction::VerifyFfprobe);
    let notices = scan.ffprobe_verified(Ok(()), false);
    assert_eq!(details(&notices), vec!["准备统计目录媒体文件"]);

    assert!(scan.action() == ScanAction::InspectRoot);
    assert_eq!(scan.searched_root().path, "/gone");
    let notices = scan.root_inspected(false, false);
    assert_eq!(details(&notices), vec!["根目录不可用，已保留原有索引"]);

    assert_eq!(scan.searched_root().path, "/half");
    assert!(scan.root_inspected(true, false).is_empty());
    assert!(scan.action() == ScanAction::ReadEntry);
    let notices = scan.entry_read(found("/half/a.mkv"), false, rules());
    assert_eq!(details(&notices), vec!["发现媒体文件"]);
    assert!(!notices[0].force);
    assert_eq!(scan.counters().discovered_files, 1);
    for error in ["first", "second", "third"] {
        let entry = WalkEntry::Unreadable {
            error: error.to_string(),
        };
        assert!(scan.entry_read(entry, false, rules()).is_empty());
    }
    let notices = scan.walk_ended(false);
    assert_eq!(details(&notices), vec!["目录遍历不完整，已保留原有索引"]);
    assert_eq!(scan.counters().discovered_files, 0);

    scan.root_inspected(true, false);
    for path in ["/full/a.mkv", "/full/b.mkv", "/full/c.flac", "/full/note.txt"] {
        scan.entry_read(found(path), false, rules());
    }
    let directory = WalkEntry::Found {
        path: "/full/dir.mkv".to_string(),
        is_file: false,
    };
    scan.entry_read(directory, false, rules());
    let notices = scan.walk_ended(false);
    assert_eq!(
        details(&notices),
        vec!["开始分析媒体文件", "正在调用 ffprobe 分析媒体流"]
    );
    assert_eq!(notices[1].total_files, Some(3));
    assert_eq!(notices[1].counters.processed_files, 1);
    assert!(notices[1].starts_file);

    assert!(scan.action() == ScanAction::AnalyzeFile);
    assert_eq!(scan.analyzed_path(), "/full/a.mkv");
    assert_eq!(scan.analyzed_root().path, "/full");
    let notices = scan.file_analyzed(Ok(analyzed("/full/a.mkv")), false);
    assert_eq!(
        details(&notices),
        vec!["当前文件处理完成", "正在调用 ffprobe 分析媒体流"]
    );
    scan.file_analyzed(Err(AnalyzeSkip::ShortVideo), false);
    let failed = AnalyzeSkip::Failed {
        reason: "ffprobe_error".to_string(),
        detail: "bad".to_string(),
    };
    scan.file_analyzed(Err(failed), false);

    assert!(scan.action() == ScanAction::CommitRoot);
    assert_eq!(scan.analyzed_files().len(), 1);
    assert_eq!(scan.pending_skips().len(), 2);
    assert_eq!(scan.pending_skips()[0].reason, "short_video");
    assert_eq!(
        scan.pending_skips()[0].detail,
        "短视频少于 5 分钟，已从媒体库过滤"
    );
    assert!(scan.pending_skips()[0].is_short_video);
    assert_eq!(scan.pending_skips()[1].path, "/full/c.flac");
    assert_eq!(scan.pending_skips()[1].root_path, "/full");
    let notices = scan.root_committed(Ok(()), false);
    assert_eq!(details(&notices), vec!["根目录索引已提交"]);

    assert!(scan.action() == ScanAction::CountDirectories);
    scan.directories_counted(Ok(4));
    assert!(scan.action() == ScanAction::Finish);
    let counters = scan.counters();
    assert_eq!(counters.discovered_files, 3);
    assert_eq!(counters.processed_files, 3);
    assert_eq!(counters.imported_files, 1);
    assert_eq!(counters.skipped_files, 2);
    assert_eq!(counters.skipped_short_files, 1);
    let outcome = outcome(scan);
    assert_eq!(outcome.completed_roots, 1);
    assert_eq!(outcome.recorded_directories, 4);
    assert_eq!(outcome.failed_roots.len(), 2);
    assert_eq!(outcome.failed_roots[0].path, "/gone");
    assert_eq!(
        outcome.failed_roots[0].detail,
        "目录不存在、不可访问或不是目录，已保留原有索引"
    );
    assert_eq!(
        outcome.failed_roots[1].detail,
        "目录遍历不完整：first；另有 2 个错误；已保留原有索引"
    );
}

#[test]
fn one_unreadable_entry_is_named_alone() {
    let mut scan = Scan::begin(vec![root("/half")], false);
    scan.ffprobe_verified(Ok(()), false);
    scan.root_inspected(true, false);
    let entry = WalkEntry::Unreadable {
        error: "only".to_string(),
    };
    scan.entry_read(entry, false, rules());
    let notices = scan.walk_ended(false);
    assert_eq!(
        details(&notices),
        vec!["目录遍历不完整，已保留原有索引", "开始分析媒体文件"]
    );
    assert!(scan.action() == ScanAction::CountDirectories);
    scan.directories_counted(Ok(0));
    assert_eq!(
        outcome(scan).failed_roots[0].detail,
        "目录遍历不完整：only；已保留原有索引"
    );
}

#[test]
fn a_scan_can_be_stopped_before_it_begins() {
    let scan = Scan::begin(vec![root("/a")], true);
    assert!(scan.action() == ScanAction::Finish);
    assert_eq!(failure(scan), SCAN_STOPPED_MESSAGE);
}

#[test]
fn a_scan_can_be_stopped_while_it_searches() {
    let mut scan = Scan::begin(vec![root("/a")], false);
    scan.ffprobe_verified(Ok(()), false);
    scan.root_inspected(true, true);
    assert!(scan.action() == ScanAction::ReadEntry);
    assert!(scan.entry_read(found("/a/b.mkv"), true, rules()).is_empty());
    assert!(scan.action() == ScanAction::Finish);
    assert_eq!(scan.counters().discovered_files, 0);
    assert_eq!(failure(scan), SCAN_STOPPED_MESSAGE);
}

#[test]
fn a_stopped_scan_stores_its_skips_first() {
    let mut scan = Scan::begin(vec![root("/a")], false);
    scan.ffprobe_verified(Ok(()), false);
    scan.root_inspected(true, false);
    scan.entry_read(found("/a/b.mkv"), false, rules());
    scan.entry_read(found("/a/c.mkv"), false, rules());
    scan.walk_ended(false);
    scan.file_analyzed(Err(AnalyzeSkip::ShortVideo), true);
    assert!(scan.action() == ScanAction::PersistSkips);
    assert_eq!(scan.pending_skips().len(), 1);
    scan.skips_persisted(Ok(()));
    assert_eq!(scan.counters().imported_files, 0);
    assert_eq!(failure(scan), SCAN_STOPPED_MESSAGE);
}

#[test]
fn a_stopped_scan_reports_skips_that_are_lost() {
    let mut scan = Scan::begin(vec![root("/a")], false);
    scan.ffprobe_verified(Ok(()), false);
    scan.root_inspected(true, false);
    scan.entry_read(found("/a/b.mkv"), false, rules());
    scan.entry_read(found("/a/c.mkv"), false, rules());
    scan.walk_ended(false);
    scan.file_analyzed(Err(AnalyzeSkip::ShortVideo), false);
    scan.file_analyzed(Err(AnalyzeSkip::Stopped), false);
    scan.skips_persisted(Err("full".to_string()));
    assert_eq!(
        failure(scan),
        "扫描已停止；无法保存已产生的跳过明细：full"
    );
}

#[test]
fn a_stop_without_skips_ends_at_once() {
    let mut scan = Scan::begin(vec![root("/a")], false);
    scan.ffprobe_verified(Ok(()), false);
    scan.root_inspected(true, false);
    scan.entry_read(found("/a/b.mkv"), false, rules());
    scan.walk_ended(false);
    scan.file_analyzed(Err(AnalyzeSkip::Stopped), false);
    assert!(scan.action() == ScanAction::Finish);
    assert_eq!(failure(scan), SCAN_STOPPED_MESSAGE);
}

#[test]
fn scans_end_with_the_first_error() {
    let mut scan = Scan::begin(vec![root("/a")], false);
    scan.ffprobe_verified(Err("missing".to_string()), false);
    assert_eq!(failure(scan), "ffprobe 预检失败：missing");

    let mut scan = Scan::begin(vec![root("/a")], false);
    scan.ffprobe_verified(Ok(()), false);
    scan.root_inspected(true, false);
    scan.walk_ended(false);
    assert!(scan.action() == ScanAction::CommitRoot);
    assert!(scan.root_committed(Err("locked".to_string()), false).is_empty());
    assert_eq!(failure(scan), "locked");

    let mut scan = Scan::begin(vec![root("/a")], false);
    scan.ffprobe_verified(Ok(()), false);
    scan.root_inspected(false, false);
    scan.directories_counted(Err("broken".to_string()));
    assert_eq!(failure(scan), "broken");
}

#[test]
fn scans_start_and_stop_by_turns() {
    assert_eq!(may_start_scan(&vec!["/a".to_string()], false), Ok(()));
    assert_eq!(
        may_start_scan(&vec![], true),
        Err("至少需要选择一个目录".to_string())
    );
    assert_eq!(
        may_start_scan(&vec!["/a".to_string()], true),
        Err("已有扫描任务正在运行".to_string())
    );
    assert_eq!(may_stop_scan(true), Ok(()));
    assert_eq!(
        may_stop_scan(false),
        Err("当前没有正在运行的扫描任务".to_string())
    );
    assert_eq!(ensure_scan_not_stopped(false), Ok(()));
    assert_eq!(
        ensure_scan_not_stopped(true),
        Err("扫描已停止".to_string())
    );
}

#[test]
fn commands_are_watched() {
    assert!(matches!(
        command_step(false, CommandState::Exited),
        CommandStep::ReadOutput
    ));
    assert!(matches!(
        command_step(false, CommandState::Running),
        CommandStep::Wait
    ));
    let lost = CommandState::Lost {
        error: "lost".to_string(),
    };
    match command_step(false, lost) {
        CommandStep::Abandon { error } => assert_eq!(error, "lost"),
        _ => panic!("a lost command is abandoned"),
    }
    match command_step(true, CommandState::Exited) {
        CommandStep::Abandon { error } => assert_eq!(error, "扫描已停止"),
        _ => panic!("a stopped command is abandoned"),
    }
    assert_eq!(
        command_output_base(12, -5, 340),
        "media_administrator_command_12_-5_340"
    );
}

fn notice(starts_file: bool, force: bool) -> ScanNotice {
    ScanNotice {
        phase: "processing".to_string(),
        counters: ScanCounters {
            discovered_files: 5,
            processed_files: 4,
            imported_files: 3,
            skipped_files: 2,
            skipped_short_files: 1,
        },
        total_files: Some(5),
        current_path: Some("/a/b".to_string()),
        detail: "detail".to_string(),
        starts_file,
        force,
    }
}

#[test]
fn progress_is_told_four_times_a_second() {
    assert!(maybe_emit_scan_progress(notice(false, false), 1, 2, 249).is_none());
    assert!(maybe_emit_scan_progress(notice(false, false), 1, 2, 250).is_some());
    let progress = match maybe_emit_scan_progress(notice(true, true), 100, 200, 0) {
        Some(progress) => progress,
        None => panic!("urgent progress is told"),
    };
    assert_eq!(progress.phase, "processing");
    assert_eq!(progress.discovered_files, 5);
    assert_eq!(progress.processed_files, 4);
    assert_eq!(progress.imported_files, 3);
    assert_eq!(progress.skipped_files, 2);
    assert_eq!(progress.skipped_short_files, 1);
    assert_eq!(progress.total_files, Some(5));
    assert_eq!(progress.current_path.as_deref(), Some("/a/b"));
    assert_eq!(progress.detail, "detail");
    assert_eq!(progress.scan_started_at_ms, 100);
    assert_eq!(progress.current_file_started_at_ms, Some(200));
    assert_eq!(progress.updated_at_ms, 200);
    assert!(!progress.ffprobe_missing);
}

fn times() -> ScanTimes {
    ScanTimes {
        scan_id: 7,
        started_at_ms: 100,
        completed_at_ms: 350,
    }
}

fn ended(failed: usize, completed_roots: usize) -> ScanOutcome {
    ScanOutcome {
        failed_roots: (0..failed)
            .map(|number| FailedRoot {
                path: format!("/{number}"),
                detail: String::new(),
            })
            .collect(),
        completed_roots,
        recorded_directories: 9,
    }
}

#[test]
fn outcomes_have_a_status() {
    let (summary, error) = summarize_outcome(times(), ScanCounters::default(), ended(0, 2));
    assert_eq!(summary.status, "completed");
    assert_eq!(summary.scan_id, 7);
    assert_eq!(summary.duration_ms, 250);
    assert_eq!(summary.recorded_directories, 9);
    assert_eq!(error, None);
    let (summary, error) = summarize_outcome(times(), ScanCounters::default(), ended(1, 1));
    assert_eq!(summary.status, "partial");
    assert_eq!(summary.failed_roots.len(), 1);
    assert_eq!(error, None);
    let (summary, error) = summarize_outcome(times(), ScanCounters::default(), ended(2, 0));
    assert_eq!(summary.status, "failed");
    assert_eq!(error.as_deref(), Some("所有扫描根目录均不可用"));
    let (summary, _) = summarize_outcome(times(), ScanCounters::default(), ended(0, 0));
    assert_eq!(summary.status, "completed");
}

#[test]
fn durations_are_never_negative() {
    let backwards = ScanTimes {
        scan_id: 7,
        started_at_ms: 350,
        completed_at_ms: 100,
    };
    let (summary, _) = summarize_outcome(backwards, ScanCounters::default(), ended(0, 1));
    assert_eq!(summary.duration_ms, 0);
}

#[test]
fn failures_have_a_status() {
    let summarize = |message: &str, counted: Result<usize, String>| {
        summarize_failure(times(), ScanCounters::default(), message.to_string(), counted)
    };
    let (summary, message) = summarize("扫描已停止", Ok(3));
    assert_eq!(summary.status, "stopped");
    assert_eq!(summary.recorded_directories, 3);
    assert!(!summary.ffprobe_missing);
    assert!(summary.failed_roots.is_empty());
    assert_eq!(message, "扫描已停止");
    let (summary, message) = summarize("ffprobe 预检失败：missing", Err("locked".to_string()));
    assert_eq!(summary.status, "failed");
    assert_eq!(summary.recorded_directories, 0);
    assert!(summary.ffprobe_missing);
    assert_eq!(
        message,
        "ffprobe 预检失败：missing；无法统计现有目录：locked"
    );
}

#[test]
fn failures_are_told() {
    let event = failure_event(7, "stopped".to_string(), "扫描已停止".to_string(), Ok(()));
    assert_eq!(event.scan_id, Some(7));
    assert_eq!(event.status, "stopped");
    assert_eq!(event.message, "扫描已停止");
    let event = failure_event(
        7,
        "failed".to_string(),
        "bad".to_string(),
        Err("locked".to_string()),
    );
    assert_eq!(event.message, "bad；扫描历史写入失败：locked");
    let event = failed_event(None, "bad".to_string());
    assert_eq!(event.scan_id, None);
    assert_eq!(event.status, "failed");
    assert_eq!(event.message, "bad");
}
