use media_administrator::analysis::{AnalyzedFile, FileMetadata};
use media_administrator::config::RootSpec;
use media_administrator::library::{load_library, LibraryData};
use media_administrator::media::{ResourceVariant, Seconds};
use media_administrator::paths::{normalized_path_string, PathRules};
use media_administrator::query::{
    load_resource_page, set_merge_rules, MergeRequest, ResourcePagePlan, ResourceQuery, SELECT_RULES,
};
use media_administrator::report::ScanSummary;
use media_administrator::rules::{LibraryRules, MergeRules};
use media_administrator::scan::{FailedRoot, PendingSkip};
use media_administrator::schema::{
    backfill_media_index_fields, backfill_scan_skip_root_keys, init_schema, table_has_column,
    TableColumns, CREATE_INDEXES, CREATE_TABLES, DATABASE_SCHEMA_VERSION, SELECT_INCOMPLETE_FILES,
    SELECT_INCOMPLETE_SKIPS,
};
use media_administrator::statements::{SqlStatement, SqlValue};
use media_administrator::store::{
    check_scan_finished, commit_root_scan, create_scan_run, finish_scan_run, load_last_scan_config,
    load_scan_run, load_scan_skips, persist_pending_skips_on_stop, ScanRun, StoredScanRun,
    COUNT_DIRECTORIES, SELECT_LAST_CONFIG, SELECT_LIBRARY_FILES, SELECT_SCAN_RUNS,
};
use media_administrator::titles::{build_item_key, group_source_key};
use rusqlite::types::Value;
use rusqlite::{params_from_iter, Connection, Row};
use std::path::Path;

fn rules() -> PathRules {
    PathRules::of_this_machine()
}

fn value(value: &SqlValue) -> Value {
    match value {
        SqlValue::Null => Value::Null,
        SqlValue::Integer(number) => Value::Integer(*number),
        SqlValue::Real(seconds) => Value::Real(f64::from_bits(seconds.bits)),
        SqlValue::Text(text) => Value::Text(text.clone()),
    }
}

fn values(statement: &SqlStatement) -> Vec<Value> {
    statement.values.iter().map(value).collect()
}

fn run(conn: &Connection, statement: &SqlStatement) -> usize {
    conn.execute(&statement.sql, params_from_iter(values(statement)))
        .expect("statement")
}

fn run_all(conn: &Connection, statements: &Vec<SqlStatement>) {
    let tx = conn.unchecked_transaction().expect("transaction");
    for statement in statements {
        run(&tx, statement);
    }
    tx.commit().expect("commit");
}

fn columns(conn: &Connection, table: &str) -> Vec<String> {
    let mut stmt = conn
        .prepare(&format!("PRAGMA table_info({table})"))
        .expect("table info");
    let names = stmt
        .query_map([], |row| row.get::<_, String>(1))
        .expect("columns");
    names.map(|name| name.expect("column")).collect()
}

fn resource_variant_from_row(row: &Row<'_>) -> rusqlite::Result<ResourceVariant> {
    Ok(ResourceVariant {
        id: row.get(0)?,
        path: row.get(1)?,
        file_name: row.get(2)?,
        root_path: row.get(3)?,
        file_size: row.get(4)?,
        duration_seconds: row
            .get::<_, Option<f64>>(5)?
            .map(|seconds| Seconds { bits: seconds.to_bits() }),
        container: row.get(6)?,
        video_codec: row.get(7)?,
        audio_codec: row.get(8)?,
        width: row.get(9)?,
        height: row.get(10)?,
        resolution: row.get(11)?,
        source: row.get(12)?,
        release_group: row.get(13)?,
        season_number: row.get(14)?,
        episode_number: row.get(15)?,
        title_guess: row.get(16)?,
        media_kind: row.get(17)?,
        music_artist: row.get(18)?,
        music_album: row.get(19)?,
        music_title: row.get(20)?,
        music_artist_source: row.get(21)?,
        series_title: row.get(22)?,
        series_source: row.get(23)?,
    })
}

fn files(conn: &Connection, sql: &str, parameters: Vec<Value>) -> Vec<ResourceVariant> {
    let mut stmt = conn.prepare(sql).expect("files");
    let rows = stmt
        .query_map(params_from_iter(parameters), resource_variant_from_row)
        .expect("rows");
    rows.map(|row| row.expect("file")).collect()
}

fn set_up(conn: &Connection) {
    conn.execute_batch(CREATE_TABLES).expect("tables");
    let found = TableColumns {
        media_files: columns(conn, "media_files"),
        scan_runs: columns(conn, "scan_runs"),
        scan_skips: columns(conn, "scan_skips"),
    };
    let version: i64 = conn
        .pragma_query_value(None, "user_version", |row| row.get(0))
        .expect("version");
    let plan = init_schema(&found, version);
    for alteration in &plan.alterations {
        conn.execute(alteration, []).expect("alteration");
    }
    if let Some(script) = &plan.migration {
        conn.execute_batch(script).expect("migration");
    }
    if plan.backfill {
        for file in files(conn, SELECT_INCOMPLETE_FILES, Vec::new()) {
            run(conn, &backfill_media_index_fields(&file, &file.root_path, rules()));
        }
        let mut stmt = conn.prepare(SELECT_INCOMPLETE_SKIPS).expect("skips");
        let rows = stmt
            .query_map([], |row| Ok((row.get::<_, i64>(0)?, row.get::<_, String>(1)?)))
            .expect("skip rows");
        let skips: Vec<(i64, String)> = rows.map(|row| row.expect("skip")).collect();
        for (id, root_path) in skips {
            run(conn, &backfill_scan_skip_root_keys(id, &root_path, rules()));
        }
        conn.pragma_update(None, "user_version", DATABASE_SCHEMA_VERSION)
            .expect("set version");
    }
    conn.execute_batch(CREATE_INDEXES).expect("indexes");
}

fn database() -> Connection {
    let conn = Connection::open_in_memory().expect("in-memory database");
    set_up(&conn);
    conn
}

fn directory(path: &str) -> String {
    Path::new(path)
        .parent()
        .expect("test file has parent")
        .to_string_lossy()
        .to_string()
}

fn name(path: &str) -> String {
    Path::new(path)
        .file_name()
        .expect("test file has name")
        .to_string_lossy()
        .to_string()
}

fn insert_video(conn: &Connection, path: &str, root: &str, series: &str) {
    conn.execute(
        r#"
        INSERT INTO media_files (
          path, file_name, root_path, root_key, directory_path, media_kind,
          file_size, video_codec, title_guess, item_key, series_title,
          series_source, series_key
        )
        VALUES (?1, ?2, ?3, ?4, ?5, 'video', 10, 'H.264', ?6, ?7, ?6, 'filename', ?8)
        "#,
        (
            path,
            name(path),
            root,
            normalized_path_string(root, rules()),
            directory(path),
            series,
            build_item_key(series, Some(1), Some(1)),
            group_source_key("video_series", series),
        ),
    )
    .expect("insert test video");
}

fn insert_music(conn: &Connection, path: &str, root: &str, artist: &str) {
    conn.execute(
        r#"
        INSERT INTO media_files (
          path, file_name, root_path, root_key, directory_path, media_kind,
          file_size, audio_codec, title_guess, item_key, music_artist,
          music_artist_source, music_artist_key
        )
        VALUES (?1, ?2, ?3, ?4, ?5, 'music', 10, 'FLAC', ?6, ?7, ?8, 'tag', ?9)
        "#,
        (
            path,
            name(path),
            root,
            normalized_path_string(root, rules()),
            directory(path),
            path,
            build_item_key(path, None, None),
            artist,
            group_source_key("music_artist", artist),
        ),
    )
    .expect("insert test music");
}

fn merge_rules(conn: &Connection, kind: &str) -> MergeRules {
    let mut stmt = conn
        .prepare(SELECT_RULES)
        .expect("rules");
    let rows = stmt
        .query_map([kind], |row| Ok((row.get::<_, String>(0)?, row.get::<_, String>(1)?)))
        .expect("rule rows");
    MergeRules::from_rows(rows.map(|row| row.expect("rule")).collect())
}

fn library(conn: &Connection, query: Option<&str>) -> LibraryData {
    let library_rules = LibraryRules {
        music_artist: merge_rules(conn, "music_artist"),
        video_series: merge_rules(conn, "video_series"),
        video_family: merge_rules(conn, "video_family"),
    };
    load_library(
        &files(conn, SELECT_LIBRARY_FILES, Vec::new()),
        &library_rules,
        query,
        rules(),
    )
}

fn page(conn: &Connection, request: ResourceQuery) -> (i64, Vec<ResourceVariant>) {
    let plan: ResourcePagePlan = match load_resource_page(request) {
        Ok(plan) => plan,
        Err(error) => panic!("{error}"),
    };
    let total: i64 = conn
        .query_row(&plan.count.sql, params_from_iter(values(&plan.count)), |row| row.get(0))
        .expect("count");
    (total, files(conn, &plan.select.sql, values(&plan.select)))
}

fn failed_roots(json: &str) -> Result<Vec<FailedRoot>, String> {
    let parsed: Vec<std::collections::HashMap<String, String>> =
        serde_json::from_str(json).map_err(|error| error.to_string())?;
    Ok(parsed
        .into_iter()
        .map(|root| FailedRoot {
            path: root["path"].clone(),
            detail: root["detail"].clone(),
        })
        .collect())
}

fn history(conn: &Connection, limit: i64) -> Result<Vec<ScanRun>, String> {
    let mut stmt = conn.prepare(SELECT_SCAN_RUNS).expect("history");
    let mut rows = stmt.query([limit]).expect("history rows");
    let mut runs = Vec::new();
    while let Some(row) = rows.next().expect("row") {
        let json: String = row.get(12).expect("failed roots");
        runs.push(load_scan_run(
            StoredScanRun {
                id: row.get(0).expect("id"),
                started_at_ms: row.get(1).expect("started"),
                completed_at_ms: row.get(2).expect("completed"),
                duration_ms: row.get(3).expect("duration"),
                scanned_files: row.get(4).expect("scanned"),
                imported_files: row.get(5).expect("imported"),
                skipped_files: row.get(6).expect("skipped"),
                skipped_short_files: row.get(7).expect("short"),
                recorded_directories: row.get(8).expect("directories"),
                ffprobe_missing: row.get(9).expect("ffprobe"),
                status: row.get(10).expect("status"),
                error_message: row.get(11).expect("error"),
                paths_json: row.get(13).expect("paths"),
                excluded_paths_json: row.get(14).expect("excluded"),
                created_at: row.get(15).expect("created"),
            },
            failed_roots(&json),
        )?);
    }
    Ok(runs)
}

fn begin_scan(conn: &Connection) -> i64 {
    let statement = match create_scan_run(
        100,
        &vec!["/library".to_string()],
        &vec!["/library/extras".to_string()],
    ) {
        Ok(statement) => statement,
        Err(error) => panic!("{error}"),
    };
    run(conn, &statement);
    conn.last_insert_rowid()
}

fn summary(scan_id: i64) -> ScanSummary {
    ScanSummary {
        scan_id,
        started_at_ms: 100,
        completed_at_ms: 250,
        duration_ms: 150,
        scanned_files: 2,
        imported_files: 1,
        skipped_files: 1,
        skipped_short_files: 0,
        recorded_directories: 1,
        ffprobe_missing: false,
        status: "partial".to_string(),
        failed_roots: vec![FailedRoot {
            path: "/offline".to_string(),
            detail: "unavailable".to_string(),
        }],
    }
}

fn skip() -> PendingSkip {
    PendingSkip {
        path: "/library/broken.mkv".to_string(),
        root_path: "/library".to_string(),
        root_key: normalized_path_string("/library", rules()),
        reason: "ffprobe_error".to_string(),
        detail: "failed".to_string(),
        is_short_video: false,
    }
}

fn root(path: &str) -> RootSpec {
    RootSpec {
        path: path.to_string(),
        display_path: path.to_string(),
        key: normalized_path_string(path, rules()),
    }
}

fn count_in_root(conn: &Connection, path: &str) -> i64 {
    conn.query_row(
        "SELECT COUNT(*) FROM media_files WHERE root_key = ?1",
        [normalized_path_string(path, rules())],
        |row| row.get(0),
    )
    .expect("count")
}

fn analyzed(path: &str, root: &str) -> AnalyzedFile {
    AnalyzedFile {
        path: path.to_string(),
        file_name: name(path),
        root_path: root.to_string(),
        root_key: normalized_path_string(root, rules()),
        directory_path: directory(path),
        media_kind: "video".to_string(),
        file_size: 42,
        modified_ms: Some(7),
        duration_seconds: Some(Seconds { bits: 1234.5f64.to_bits() }),
        container: Some("matroska".to_string()),
        video_codec: Some("H.264".to_string()),
        audio_codec: None,
        width: Some(1920),
        height: Some(1080),
        resolution: Some("1080p (1920x1080)".to_string()),
        source: Some("BDRip".to_string()),
        release_group: None,
        season_number: Some(1),
        episode_number: Some(2),
        title_guess: "Example Show".to_string(),
        item_key: "item".to_string(),
        music_artist: None,
        music_album: None,
        music_title: None,
        music_artist_source: None,
        music_artist_key: None,
        series_title: Some("Example Show".to_string()),
        series_source: Some("filename".to_string()),
        series_key: Some("video_series:example-show".to_string()),
        family_key: None,
    }
}

#[test]
fn root_commit_only_replaces_the_completed_root() {
    let conn = database();
    insert_video(&conn, "/offline/show/01.mkv", "/offline", "Offline Show");
    insert_video(&conn, "/online/show/01.mkv", "/online", "Online Show");

    run_all(
        &conn,
        &commit_root_scan(1, &root("/online"), &vec![], &vec![], &vec![], rules()),
    );

    assert_eq!(count_in_root(&conn, "/offline"), 1);
    assert_eq!(count_in_root(&conn, "/online"), 0);
}

#[test]
fn stopped_scan_persists_pending_skip_details() {
    let conn = database();
    run_all(
        &conn,
        &persist_pending_skips_on_stop(7, &vec![skip()], &vec![None], rules()),
    );
    let read = load_scan_skips(7, false);
    let mut stmt = conn.prepare(&read.sql).expect("load skips");
    let rows = stmt
        .query_map(params_from_iter(values(&read)), |row| row.get::<_, String>(5))
        .expect("skip rows");
    let reasons: Vec<String> = rows.map(|row| row.expect("reason")).collect();
    assert_eq!(reasons.len(), 1);
    assert_eq!(reasons[0], "ffprobe_error");
}

#[test]
fn scan_history_preserves_status_and_rejects_corrupt_json() {
    let conn = database();
    let scan_id = begin_scan(&conn);
    let changed = run(
        &conn,
        &finish_scan_run(
            &summary(scan_id),
            &None,
            r#"[{"path":"/offline","detail":"unavailable"}]"#,
        ),
    );
    assert_eq!(check_scan_finished(changed, scan_id), Ok(()));

    let runs = match history(&conn, 10) {
        Ok(runs) => runs,
        Err(error) => panic!("load history: {error}"),
    };
    assert_eq!(runs[0].status, "partial");
    assert_eq!(runs[0].failed_roots.len(), 1);

    conn.execute(
        "UPDATE scan_runs SET paths_json = 'invalid' WHERE id = ?1",
        [scan_id],
    )
    .expect("corrupt history");
    assert!(history(&conn, 10).is_err());
}

#[test]
fn legacy_scan_skips_are_migrated_without_losing_rows() {
    let conn = Connection::open_in_memory().expect("in-memory database");
    conn.execute_batch(
        r#"
        CREATE TABLE scan_skips (
          id INTEGER PRIMARY KEY,
          path TEXT NOT NULL UNIQUE,
          file_name TEXT NOT NULL,
          root_path TEXT NOT NULL,
          reason TEXT NOT NULL,
          detail TEXT NOT NULL,
          is_short_video INTEGER NOT NULL DEFAULT 0,
          file_size INTEGER,
          modified_ms INTEGER,
          created_at TEXT NOT NULL DEFAULT CURRENT_TIMESTAMP,
          updated_at TEXT NOT NULL DEFAULT CURRENT_TIMESTAMP
        );
        CREATE INDEX idx_scan_skips_root ON scan_skips(root_path);
        CREATE INDEX idx_scan_skips_short ON scan_skips(is_short_video);
        INSERT INTO scan_skips (
          path, file_name, root_path, reason, detail, is_short_video
        ) VALUES ('/library/broken.mkv', 'broken.mkv', '/library', 'ffprobe_error', 'failed', 0);
        "#,
    )
    .expect("legacy schema");

    set_up(&conn);
    assert!(table_has_column(&columns(&conn, "scan_skips"), "scan_id"));
    let migrated: (Option<i64>, String, String) = conn
        .query_row(
            "SELECT scan_id, path, root_key FROM scan_skips",
            [],
            |row| Ok((row.get(0)?, row.get(1)?, row.get(2)?)),
        )
        .expect("migrated row");
    assert_eq!(migrated.0, None);
    assert_eq!(migrated.1, "/library/broken.mkv");
    assert_eq!(migrated.2, normalized_path_string("/library", rules()));
    let schema_version: i64 = conn
        .pragma_query_value(None, "user_version", |row| row.get(0))
        .expect("schema version");
    assert_eq!(schema_version, DATABASE_SCHEMA_VERSION);

    set_up(&conn);
    let row_count: i64 = conn
        .query_row("SELECT COUNT(*) FROM scan_skips", [], |row| row.get(0))
        .expect("migrated row count");
    assert_eq!(row_count, 1);
}

#[test]
fn library_summary_and_file_pages_do_not_duplicate_startup_payload() {
    let conn = database();
    for episode in 1..=205 {
        insert_video(
            &conn,
            &format!("/library/show/{episode:03}.mkv"),
            "/library",
            "Example Show",
        );
    }

    let shown = library(&conn, None);
    assert_eq!(shown.video_directories[0].file_count, 205);
    assert_eq!(shown.video_series[0].file_count, 205);
    let (total, files) = page(
        &conn,
        ResourceQuery {
            kind: "video_series".to_string(),
            media_kind: "video".to_string(),
            key: shown.video_series[0].key.clone(),
            source_keys: shown.video_series[0].resource_keys.clone(),
            offset: 0,
            limit: 200,
        },
    );

    assert_eq!(total, 205);
    assert_eq!(files.len(), 200);
}

#[test]
fn file_search_keeps_music_and_video_directories_separate() {
    let conn = database();
    insert_video(
        &conn,
        "/library/shared/unique-video.mkv",
        "/library",
        "Example Show",
    );
    insert_music(
        &conn,
        "/library/shared/unique-audio.flac",
        "/library",
        "Example Artist",
    );

    let result = library(&conn, Some("unique-video"));
    assert_eq!(result.video_directories.len(), 1);
    assert!(result.music_directories.is_empty());
}

#[test]
fn committed_files_are_read_back() {
    let conn = database();
    insert_video(&conn, "/online/old/01.mkv", "/online", "Old Show");
    run_all(
        &conn,
        &commit_root_scan(
            3,
            &root("/online"),
            &vec![analyzed("/online/show/02.mkv", "/online")],
            &vec![skip()],
            &vec![Some(FileMetadata { file_size: 5, modified_ms: Some(9) })],
            rules(),
        ),
    );

    let read = files(&conn, SELECT_LIBRARY_FILES, Vec::new());
    assert_eq!(read.len(), 1);
    assert_eq!(read[0].path, "/online/show/02.mkv");
    assert_eq!(read[0].file_size, 42);
    assert_eq!(
        read[0].duration_seconds.map(|seconds| f64::from_bits(seconds.bits)),
        Some(1234.5)
    );
    assert_eq!(read[0].resolution.as_deref(), Some("1080p (1920x1080)"));
    assert_eq!(read[0].episode_number, Some(2));
    assert_eq!(read[0].series_source.as_deref(), Some("filename"));
    let left_out: (i64, String, i64, i64) = conn
        .query_row(
            "SELECT scan_id, file_name, file_size, modified_ms FROM scan_skips",
            [],
            |row| Ok((row.get(0)?, row.get(1)?, row.get(2)?, row.get(3)?)),
        )
        .expect("left-out file");
    assert_eq!(left_out, (3, "broken.mkv".to_string(), 5, 9));
    let directories: i64 = conn
        .query_row(COUNT_DIRECTORIES, [], |row| row.get(0))
        .expect("directories");
    assert_eq!(directories, 1);
}

#[test]
fn committing_a_file_again_changes_its_row() {
    let conn = database();
    let files_of_root = vec![analyzed("/online/show/02.mkv", "/online")];
    run_all(
        &conn,
        &commit_root_scan(1, &root("/online"), &files_of_root, &vec![], &vec![], rules()),
    );
    let mut moved = analyzed("/online/show/02.mkv", "/online/show");
    moved.file_size = 99;
    run_all(
        &conn,
        &commit_root_scan(2, &root("/online/show"), &vec![moved], &vec![], &vec![], rules()),
    );

    let read = files(&conn, SELECT_LIBRARY_FILES, Vec::new());
    assert_eq!(read.len(), 1);
    assert_eq!(read[0].file_size, 99);
    assert_eq!(read[0].root_path, "/online/show");
}

#[test]
fn last_scan_config_is_read_back() {
    let conn = database();
    begin_scan(&conn);
    let row: (i64, String, String) = conn
        .query_row(SELECT_LAST_CONFIG, [], |row| {
            Ok((row.get(0)?, row.get(1)?, row.get(2)?))
        })
        .expect("last scan");
    let config = match load_last_scan_config(Some(row)) {
        Ok(config) => config,
        Err(error) => panic!("{error}"),
    };
    assert_eq!(config.paths, vec!["/library".to_string()]);
    assert_eq!(config.excluded_paths, vec!["/library/extras".to_string()]);

    let none = match load_last_scan_config(None) {
        Ok(config) => config,
        Err(error) => panic!("{error}"),
    };
    assert!(none.paths.is_empty());
    assert!(none.excluded_paths.is_empty());
}

#[test]
fn rules_rename_and_merge_groups() {
    let conn = database();
    insert_music(&conn, "/music/a/1.flac", "/music", "First Artist");
    insert_music(&conn, "/music/b/2.flac", "/music", "Second Artist");
    assert_eq!(library(&conn, None).music_artists.len(), 2);

    let request = MergeRequest {
        kind: "music_artist".to_string(),
        source_keys: vec![
            "music_artist:first-artist".to_string(),
            " music_artist:second-artist ".to_string(),
            "music_artist:first-artist".to_string(),
        ],
        target_name: "  Both  ".to_string(),
    };
    let statements = match set_merge_rules(request, false) {
        Ok(statements) => statements,
        Err(error) => panic!("{error}"),
    };
    assert_eq!(statements.len(), 2);
    run_all(&conn, &statements);
    let merged = library(&conn, None);
    assert_eq!(merged.music_artists.len(), 1);
    assert_eq!(merged.music_artists[0].name, "Both");
    assert_eq!(merged.music_artists[0].key, "music_artist:both");
    assert_eq!(merged.music_artists[0].file_count, 2);
    assert_eq!(merged.music_artists[0].total_size, 20);
    assert_eq!(
        merged.music_artists[0].source_keys,
        vec![
            "music_artist:first-artist".to_string(),
            "music_artist:second-artist".to_string()
        ]
    );

    let back = MergeRequest {
        kind: "music_artist".to_string(),
        source_keys: vec!["music_artist:first-artist".to_string()],
        target_name: "   ".to_string(),
    };
    match set_merge_rules(back, false) {
        Ok(statements) => run_all(&conn, &statements),
        Err(error) => panic!("{error}"),
    }
    assert_eq!(library(&conn, None).music_artists.len(), 2);
}

#[test]
fn pages_of_a_directory_follow_season_and_episode() {
    let conn = database();
    let mut second = analyzed("/online/show/b.mkv", "/online");
    second.episode_number = Some(10);
    let mut without = analyzed("/online/show/c.mkv", "/online");
    without.season_number = None;
    without.episode_number = None;
    let first = analyzed("/online/show/z.mkv", "/online");
    run_all(
        &conn,
        &commit_root_scan(
            1,
            &root("/online"),
            &vec![without, second, first],
            &vec![],
            &vec![],
            rules(),
        ),
    );
    let (total, files) = page(
        &conn,
        ResourceQuery {
            kind: "directory".to_string(),
            media_kind: "video".to_string(),
            key: "/online/show".to_string(),
            source_keys: vec![],
            offset: 0,
            limit: 0,
        },
    );
    assert_eq!(total, 3);
    let names: Vec<&str> = files.iter().map(|file| file.file_name.as_str()).collect();
    assert_eq!(names, vec!["z.mkv", "b.mkv", "c.mkv"]);
}

#[test]
fn older_files_are_completed() {
    let conn = Connection::open_in_memory().expect("in-memory database");
    conn.execute_batch(
        r#"
        CREATE TABLE media_files (
          id INTEGER PRIMARY KEY,
          path TEXT NOT NULL UNIQUE,
          file_name TEXT NOT NULL,
          root_path TEXT NOT NULL,
          file_size INTEGER NOT NULL,
          modified_ms INTEGER,
          duration_seconds REAL,
          container TEXT,
          video_codec TEXT,
          audio_codec TEXT,
          width INTEGER,
          height INTEGER,
          resolution TEXT,
          source TEXT,
          release_group TEXT,
          season_number INTEGER,
          episode_number INTEGER,
          title_guess TEXT NOT NULL,
          item_key TEXT NOT NULL,
          created_at TEXT NOT NULL DEFAULT CURRENT_TIMESTAMP,
          updated_at TEXT NOT NULL DEFAULT CURRENT_TIMESTAMP
        );
        INSERT INTO media_files (path, file_name, root_path, file_size, audio_codec, title_guess, item_key)
        VALUES ('/music/Some Artist/Album/01.flac', '01.flac', '/music', 5, 'FLAC', 'x', 'x');
        INSERT INTO media_files (path, file_name, root_path, file_size, video_codec, title_guess, item_key)
        VALUES ('/shows/Some Show/Some Show - 01.mkv', 'Some Show - 01.mkv', '/shows', 6, 'H.264', 'x', 'x');
        INSERT INTO media_files (path, file_name, root_path, file_size, title_guess, item_key)
        VALUES ('/shows/broken.flac', 'broken.flac', '/shows', 7, 'x', 'x');
        "#,
    )
    .expect("older schema");

    set_up(&conn);
    let row = |path: &str| -> (String, String, String, Option<String>, Option<String>) {
        conn.query_row(
            "SELECT root_key, directory_path, media_kind, music_artist_key, series_key
             FROM media_files WHERE path = ?1",
            [path],
            |row| {
                Ok((
                    row.get(0)?,
                    row.get(1)?,
                    row.get(2)?,
                    row.get(3)?,
                    row.get(4)?,
                ))
            },
        )
        .expect("completed row")
    };
    let music = row("/music/Some Artist/Album/01.flac");
    assert_eq!(music.0, "/music");
    assert_eq!(music.1, "/music/Some Artist/Album");
    assert_eq!(music.2, "music");
    assert_eq!(music.3.as_deref(), Some("music_artist:some-artist"));
    let video = row("/shows/Some Show/Some Show - 01.mkv");
    assert_eq!(video.2, "video");
    assert_eq!(video.4.as_deref(), Some("video_series:some-show"));
    assert_eq!(row("/shows/broken.flac").2, "ignored");
    let shown = library(&conn, None);
    assert_eq!(shown.music_artists.len(), 1);
    assert_eq!(shown.video_series.len(), 1);
}

#[test]
fn pages_hold_every_file_once() {
    let conn = database();
    let names: Vec<String> = (0..5).map(|number| format!("/online/show/{number}.mkv")).collect();
    let stored: Vec<AnalyzedFile> = names.iter().map(|path| analyzed(path, "/online")).collect();
    run_all(
        &conn,
        &commit_root_scan(1, &root("/online"), &stored, &vec![], &vec![], rules()),
    );
    let mut seen = Vec::new();
    for offset in [0, 2, 4, 6] {
        let (total, files) = page(
            &conn,
            ResourceQuery {
                kind: "directory".to_string(),
                media_kind: "video".to_string(),
                key: "/online/show".to_string(),
                source_keys: vec![],
                offset,
                limit: 2,
            },
        );
        assert_eq!(total, 5);
        assert_eq!(files.len(), if offset < 4 { 2 } else { 5usize.saturating_sub(offset) });
        seen.extend(files.into_iter().map(|file| file.path));
    }
    assert_eq!(seen, names);
}

#[test]
fn taking_rules_back_restores_them() {
    let conn = database();
    let change = |kind: &str, keys: Vec<&str>, name: &str| {
        let request = MergeRequest {
            kind: kind.to_string(),
            source_keys: keys.iter().map(|key| key.to_string()).collect(),
            target_name: name.to_string(),
        };
        match set_merge_rules(request, false) {
            Ok(statements) => run_all(&conn, &statements),
            Err(error) => panic!("{error}"),
        }
    };
    let stored = || {
        let mut stmt = conn
            .prepare("SELECT kind, source_key, target_name FROM merge_rules ORDER BY 1, 2")
            .expect("rules");
        let rows = stmt
            .query_map([], |row| {
                Ok((
                    row.get::<_, String>(0)?,
                    row.get::<_, String>(1)?,
                    row.get::<_, String>(2)?,
                ))
            })
            .expect("rows");
        rows.map(|row| row.expect("rule")).collect::<Vec<_>>()
    };
    change("video_family", vec!["video_series:a"], "Family");
    let before = stored();
    assert_eq!(before.len(), 1);
    change("video_series", vec!["video_series:a", " video_series:b "], "Name");
    assert_eq!(stored().len(), 3);
    change("video_series", vec!["video_series:b", "video_series:a"], "  ");
    assert_eq!(stored(), before);
}
