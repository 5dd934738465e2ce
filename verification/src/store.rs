//! What is stored and read back: files, left-out files and scans.

use vstd::prelude::*;
use vstd::string::*;

use crate::analysis::{AnalyzedFile, FileMetadata};
use crate::config::RootSpec;
use crate::json::{
    json_of_list, list_in_json, list_to_json, parse_string_list_json, read_list,
};
use crate::paths::{path_file_name, PathRules};
use crate::report::ScanSummary;
use crate::scan::{FailedRoot, PendingSkip, SkipModel};
use crate::statements::{
    flag, flag_value, integer_or_null, opt_integer_value, opt_real_value, opt_text_value,
    real_or_null, statement, statement_models, text_or_null, text_value, value_models,
    SqlStatement, SqlValue, StatementModel, ValueModel,
};
use crate::text::{decimal, decimal_text, opt_text, texts};

verus! {

// ---------------------------------------------------------------------------
// Files
// ---------------------------------------------------------------------------

/// The files that the library shows.
pub const SELECT_LIBRARY_FILES: &'static str = r#"
            SELECT
              id, path, file_name, root_path, file_size, duration_seconds, container,
              video_codec, audio_codec, width, height, resolution, source, release_group,
              season_number, episode_number, title_guess, media_kind, music_artist, music_album,
              music_title, music_artist_source, series_title, series_source
            FROM media_files
            WHERE media_kind IN ('music', 'video')
            "#;

/// Takes the files of a root out of the index.
pub const DELETE_ROOT_FILES: &'static str = "DELETE FROM media_files WHERE root_key = ?1";

/// Puts a file into the index, or changes what the index holds of it.
pub const UPSERT_FILE: &'static str = r#"
      INSERT INTO media_files (
        path, file_name, root_path, root_key, directory_path, media_kind, file_size,
        modified_ms, duration_seconds, container, video_codec, audio_codec, width, height,
        resolution, source, release_group, season_number, episode_number, title_guess,
        item_key, music_artist, music_album, music_title, music_artist_source,
        music_artist_key, series_title, series_source, series_key, family_key
      )
      VALUES (
        ?1, ?2, ?3, ?4, ?5, ?6, ?7, ?8, ?9, ?10, ?11, ?12, ?13, ?14, ?15, ?16,
        ?17, ?18, ?19, ?20, ?21, ?22, ?23, ?24, ?25, ?26, ?27, ?28, ?29, ?30
      )
      ON CONFLICT(path) DO UPDATE SET
        file_name = excluded.file_name,
        root_path = excluded.root_path,
        root_key = excluded.root_key,
        directory_path = excluded.directory_path,
        media_kind = excluded.media_kind,
        file_size = excluded.file_size,
        modified_ms = excluded.modified_ms,
        duration_seconds = excluded.duration_seconds,
        container = excluded.container,
        video_codec = excluded.video_codec,
        audio_codec = excluded.audio_codec,
        width = excluded.width,
        height = excluded.height,
        resolution = excluded.resolution,
        source = excluded.source,
        release_group = excluded.release_group,
        season_number = excluded.season_number,
        episode_number = excluded.episode_number,
        title_guess = excluded.title_guess,
        item_key = excluded.item_key,
        music_artist = excluded.music_artist,
        music_album = excluded.music_album,
        music_title = excluded.music_title,
        music_artist_source = excluded.music_artist_source,
        music_artist_key = excluded.music_artist_key,
        series_title = excluded.series_title,
        series_source = excluded.series_source,
        series_key = excluded.series_key,
        family_key = excluded.family_key,
        updated_at = CURRENT_TIMESTAMP
      "#;

/// Stores a file that was left out.
pub const INSERT_SKIP: &'static str = r#"
        INSERT INTO scan_skips (
          scan_id, path, file_name, root_path, root_key, reason, detail,
          is_short_video, file_size, modified_ms
        )
        VALUES (?1, ?2, ?3, ?4, ?5, ?6, ?7, ?8, ?9, ?10)
        "#;

/// What is stored of a file, in the order of the columns of [`UPSERT_FILE`].
pub open spec fn file_values(file: AnalyzedFile) -> Seq<ValueModel> {
    seq![
        ValueModel::Text(file.path@),
        ValueModel::Text(file.file_name@),
        ValueModel::Text(file.root_path@),
        ValueModel::Text(file.root_key@),
        ValueModel::Text(file.directory_path@),
        ValueModel::Text(file.media_kind@),
        ValueModel::Integer(file.file_size),
        integer_or_null(file.modified_ms),
        real_or_null(file.duration_seconds),
        text_or_null(opt_text(file.container)),
        text_or_null(opt_text(file.video_codec)),
        text_or_null(opt_text(file.audio_codec)),
        integer_or_null(file.width),
        integer_or_null(file.height),
        text_or_null(opt_text(file.resolution)),
        text_or_null(opt_text(file.source)),
        text_or_null(opt_text(file.release_group)),
        integer_or_null(file.season_number),
        integer_or_null(file.episode_number),
        ValueModel::Text(file.title_guess@),
        ValueModel::Text(file.item_key@),
        text_or_null(opt_text(file.music_artist)),
        text_or_null(opt_text(file.music_album)),
        text_or_null(opt_text(file.music_title)),
        text_or_null(opt_text(file.music_artist_source)),
        text_or_null(opt_text(file.music_artist_key)),
        text_or_null(opt_text(file.series_title)),
        text_or_null(opt_text(file.series_source)),
        text_or_null(opt_text(file.series_key)),
        text_or_null(opt_text(file.family_key)),
    ]
}

/// The statement that puts a file into the index.
pub open spec fn file_statement(file: AnalyzedFile) -> StatementModel {
    StatementModel { sql: UPSERT_FILE@, values: file_values(file) }
}

/// The statement that puts a file into the index.
pub fn upsert_file(file: &AnalyzedFile) -> (r: SqlStatement)
    ensures
        r.model() == file_statement(*file),
{
    let values = vec![
        text_value(file.path.as_str()),
        text_value(file.file_name.as_str()),
        text_value(file.root_path.as_str()),
        text_value(file.root_key.as_str()),
        text_value(file.directory_path.as_str()),
        text_value(file.media_kind.as_str()),
        SqlValue::Integer(file.file_size),
        opt_integer_value(file.modified_ms),
        opt_real_value(file.duration_seconds),
        opt_text_value(&file.container),
        opt_text_value(&file.video_codec),
        opt_text_value(&file.audio_codec),
        opt_integer_value(file.width),
        opt_integer_value(file.height),
        opt_text_value(&file.resolution),
        opt_text_value(&file.source),
        opt_text_value(&file.release_group),
        opt_integer_value(file.season_number),
        opt_integer_value(file.episode_number),
        text_value(file.title_guess.as_str()),
        text_value(file.item_key.as_str()),
        opt_text_value(&file.music_artist),
        opt_text_value(&file.music_album),
        opt_text_value(&file.music_title),
        opt_text_value(&file.music_artist_source),
        opt_text_value(&file.music_artist_key),
        opt_text_value(&file.series_title),
        opt_text_value(&file.series_source),
        opt_text_value(&file.series_key),
        opt_text_value(&file.family_key),
    ];
    proof {
        assert(value_models(values@) =~= file_values(*file));
    }
    statement(UPSERT_FILE, values)
}

/// The statement that stores a file that was left out in a scan, with what the
/// file system still tells of it.
pub open spec fn skip_statement(
    scan_id: i64,
    skip: SkipModel,
    metadata: Option<FileMetadata>,
    windows: bool,
) -> StatementModel {
    StatementModel {
        sql: INSERT_SKIP@,
        values: seq![
            ValueModel::Integer(scan_id),
            ValueModel::Text(skip.path),
            ValueModel::Text(
                match path_file_name(skip.path, windows) {
                    Some(name) => name,
                    None => skip.path,
                },
            ),
            ValueModel::Text(skip.root_path),
            ValueModel::Text(skip.root_key),
            ValueModel::Text(skip.reason),
            ValueModel::Text(skip.detail),
            flag(skip.is_short_video),
            match metadata {
                Some(metadata) => ValueModel::Integer(metadata.file_size),
                None => ValueModel::Null,
            },
            match metadata {
                Some(metadata) => integer_or_null(metadata.modified_ms),
                None => ValueModel::Null,
            },
        ],
    }
}

/// The statement that stores a file that was left out in a scan.
pub fn record_scan_skip(
    scan_id: i64,
    skip: &PendingSkip,
    metadata: Option<FileMetadata>,
    rules: PathRules,
) -> (r: SqlStatement)
    ensures
        r.model() == skip_statement(scan_id, skip.model(), metadata, rules.windows()),
{
    let file_name = match rules.file_name(skip.path.as_str()) {
        Some(name) => name,
        None => skip.path.clone(),
    };
    let (file_size, modified_ms) = match metadata {
        Some(metadata) => (
            SqlValue::Integer(metadata.file_size),
            opt_integer_value(metadata.modified_ms),
        ),
        None => (SqlValue::Null, SqlValue::Null),
    };
    let values = vec![
        SqlValue::Integer(scan_id),
        text_value(skip.path.as_str()),
        SqlValue::Text(file_name),
        text_value(skip.root_path.as_str()),
        text_value(skip.root_key.as_str()),
        text_value(skip.reason.as_str()),
        text_value(skip.detail.as_str()),
        flag_value(skip.is_short_video),
        file_size,
        modified_ms,
    ];
    proof {
        assert(value_models(values@) =~= skip_statement(
            scan_id,
            skip.model(),
            metadata,
            rules.windows(),
        ).values);
    }
    statement(INSERT_SKIP, values)
}

/// The statements that store files that were left out.
pub open spec fn skip_statements(
    scan_id: i64,
    skips: Seq<PendingSkip>,
    metadata: Seq<Option<FileMetadata>>,
    windows: bool,
) -> Seq<StatementModel> {
    Seq::new(
        skips.len(),
        |i: int| skip_statement(scan_id, skips[i].model(), metadata[i], windows),
    )
}

/// The statements that store the files that were left out before a scan was
/// stopped.
pub fn persist_pending_skips_on_stop(
    scan_id: i64,
    skips: &Vec<PendingSkip>,
    metadata: &Vec<Option<FileMetadata>>,
    rules: PathRules,
) -> (r: Vec<SqlStatement>)
    requires
        metadata@.len() == skips@.len(),
    ensures
        statement_models(r@) == skip_statements(scan_id, skips@, metadata@, rules.windows()),
{
    let ghost all = skip_statements(scan_id, skips@, metadata@, rules.windows());
    let mut statements: Vec<SqlStatement> = Vec::new();
    let mut i: usize = 0;
    while i < skips.len()
        invariant
            i <= skips@.len(),
            metadata@.len() == skips@.len(),
            all == skip_statements(scan_id, skips@, metadata@, rules.windows()),
            all.len() == skips@.len(),
            statements@.len() == i,
            forall|j: int| 0 <= j < i ==> (#[trigger] statements@[j]).model() == all[j],
        decreases skips@.len() - i,
    {
        statements.push(record_scan_skip(scan_id, &skips[i], metadata[i], rules));
        i += 1;
    }
    proof {
        assert(statement_models(statements@) =~= all);
    }
    statements
}

/// The statements that store a root that was scanned: what the index held of
/// the root is taken out, its files are put in, and those that were left out
/// are stored.
pub open spec fn root_statements(
    scan_id: i64,
    root_key: Seq<char>,
    files: Seq<AnalyzedFile>,
    skips: Seq<PendingSkip>,
    metadata: Seq<Option<FileMetadata>>,
    windows: bool,
) -> Seq<StatementModel> {
    seq![
        StatementModel { sql: DELETE_ROOT_FILES@, values: seq![ValueModel::Text(root_key)] },
    ] + files.map_values(|f: AnalyzedFile| file_statement(f)) + skip_statements(
        scan_id,
        skips,
        metadata,
        windows,
    )
}

/// The statements that store a root that was scanned, to be run as one
/// transaction.
pub fn commit_root_scan(
    scan_id: i64,
    root: &RootSpec,
    files: &Vec<AnalyzedFile>,
    skips: &Vec<PendingSkip>,
    metadata: &Vec<Option<FileMetadata>>,
    rules: PathRules,
) -> (r: Vec<SqlStatement>)
    requires
        metadata@.len() == skips@.len(),
    ensures
        statement_models(r@) == root_statements(
            scan_id,
            root.key@,
            files@,
            skips@,
            metadata@,
            rules.windows(),
        ),
{
    let mut statements: Vec<SqlStatement> = Vec::new();
    let values = vec![text_value(root.key.as_str())];
    proof {
        assert(value_models(values@) =~= seq![ValueModel::Text(root.key@)]);
    }
    statements.push(statement(DELETE_ROOT_FILES, values));
    let ghost first = statements@[0].model();
    let ghost stored = files@.map_values(|f: AnalyzedFile| file_statement(f));
    let mut i: usize = 0;
    while i < files.len()
        invariant
            i <= files@.len(),
            stored == files@.map_values(|f: AnalyzedFile| file_statement(f)),
            statements@.len() == i + 1,
            statements@[0].model() == first,
            forall|j: int| 0 <= j < i ==> (#[trigger] statements@[j + 1]).model() == stored[j],
        decreases files@.len() - i,
    {
        let ghost before = statements@;
        statements.push(upsert_file(&files[i]));
        proof {
            assert forall|j: int| 0 <= j < i + 1 implies (#[trigger] statements@[j + 1]).model()
                == stored[j] by {
                if j < i {
                    assert(statements@[j + 1] == before[j + 1]);
                }
            }
        }
        i += 1;
    }
    proof {
        assert forall|k: int| 1 <= k < statements@.len() implies (#[trigger] statements@[k]).model()
            == stored[k - 1] by {
            assert(statements@[(k - 1) + 1].model() == stored[k - 1]);
        }
        assert(statement_models(statements@) =~= seq![first] + stored);
    }
    let ghost before = statements@;
    let mut left_out = persist_pending_skips_on_stop(scan_id, skips, metadata, rules);
    let ghost behind = left_out@;
    statements.append(&mut left_out);
    proof {
        assert(statement_models(statements@) =~= statement_models(before) + statement_models(
            behind,
        ));
    }
    statements
}

// ---------------------------------------------------------------------------
// Left-out files
// ---------------------------------------------------------------------------

/// The files that were left out in a scan.
pub const SELECT_SKIPS: &'static str = r#"
            SELECT id, scan_id, path, file_name, root_path, reason, detail, is_short_video,
                   file_size, modified_ms, created_at
            FROM scan_skips
            WHERE scan_id = ?1
            ORDER BY root_path COLLATE NOCASE, path COLLATE NOCASE
            "#;

/// The files that were left out in a scan, without short videos.
pub const SELECT_FAILED_SKIPS: &'static str = r#"
        SELECT id, scan_id, path, file_name, root_path, reason, detail, is_short_video,
               file_size, modified_ms, created_at
        FROM scan_skips
        WHERE scan_id = ?1 AND is_short_video = 0
        ORDER BY root_path COLLATE NOCASE, path COLLATE NOCASE
        "#;

/// Counts the directories with files that the library shows.
pub const COUNT_DIRECTORIES: &'static str = r#"
        SELECT COUNT(*)
        FROM (
          SELECT DISTINCT media_kind, directory_path
          FROM media_files
          WHERE media_kind IN ('music', 'video') AND directory_path <> ''
        )
        "#;

/// What reads the files that were left out in a scan, with short videos or
/// without.
pub open spec fn skips_read(scan_id: i64, include_short_video: bool) -> StatementModel {
    StatementModel {
        sql: if include_short_video {
            SELECT_SKIPS@
        } else {
            SELECT_FAILED_SKIPS@
        },
        values: seq![ValueModel::Integer(scan_id)],
    }
}

/// Why the files that were left out in a scan cannot be listed, if they cannot.
pub open spec fn skips_error(scan_id: i64) -> Option<Seq<char>> {
    if scan_id > 0 {
        None
    } else {
        Some("扫描记录编号无效"@)
    }
}

/// The statement that reads the files that were left out in a scan.
pub fn load_scan_skips(scan_id: i64, include_short_video: bool) -> (r: SqlStatement)
    ensures
        r.model() == (StatementModel {
            sql: if include_short_video {
                SELECT_SKIPS@
            } else {
                SELECT_FAILED_SKIPS@
            },
            values: seq![ValueModel::Integer(scan_id)],
        }),
        r.model() == skips_read(scan_id, include_short_video),
{
    let values = vec![SqlValue::Integer(scan_id)];
    proof {
        assert(value_models(values@) =~= seq![ValueModel::Integer(scan_id)]);
    }
    if include_short_video {
        statement(SELECT_SKIPS, values)
    } else {
        statement(SELECT_FAILED_SKIPS, values)
    }
}

/// The statement that reads the files that are listed as left out in a scan:
/// all but short videos. Scans have positive numbers.
pub fn list_scan_skips(scan_id: i64) -> (r: Result<SqlStatement, String>)
    ensures
        r is Ok <==> scan_id > 0,
        r matches Ok(read) ==> read.model() == (StatementModel {
            sql: SELECT_FAILED_SKIPS@,
            values: seq![ValueModel::Integer(scan_id)],
        }),
        r matches Err(message) ==> message@ == "扫描记录编号无效"@,
        match skips_error(scan_id) {
            Some(error) => r matches Err(message) && message@ == error,
            None => r matches Ok(read) && read.model() == skips_read(scan_id, false),
        },
{
    if scan_id <= 0 {
        return Err("扫描记录编号无效".to_string());
    }
    Ok(load_scan_skips(scan_id, false))
}

// ---------------------------------------------------------------------------
// Scans
// ---------------------------------------------------------------------------

/// How many scans the history lists.
pub const HISTORY_LIMIT: i64 = 50;

/// Stores a scan that begins.
pub const INSERT_SCAN_RUN: &'static str = r#"
        INSERT INTO scan_runs (
          started_at_ms, completed_at_ms, duration_ms, scanned_files, imported_files,
          skipped_files, skipped_short_files, recorded_directories, ffprobe_missing,
          status, paths_json, excluded_paths_json, failed_roots_json
        )
        VALUES (?1, 0, 0, 0, 0, 0, 0, 0, 0, 'running', ?2, ?3, '[]')
        "#;

/// Stores how a scan ended.
pub const UPDATE_SCAN_RUN: &'static str = r#"
            UPDATE scan_runs
            SET completed_at_ms = ?2,
                duration_ms = ?3,
                scanned_files = ?4,
                imported_files = ?5,
                skipped_files = ?6,
                skipped_short_files = ?7,
                recorded_directories = ?8,
                ffprobe_missing = ?9,
                status = ?10,
                error_message = ?11,
                failed_roots_json = ?12
            WHERE id = ?1
            "#;

/// The scans, the latest first.
pub const SELECT_SCAN_RUNS: &'static str = r#"
            SELECT id, started_at_ms, completed_at_ms, duration_ms, scanned_files,
                   imported_files, skipped_files, skipped_short_files, recorded_directories,
                   ffprobe_missing, status, error_message, failed_roots_json,
                   paths_json, excluded_paths_json, created_at
            FROM scan_runs
            ORDER BY id DESC
            LIMIT ?1
            "#;

/// The directories of the latest scan.
pub const SELECT_LAST_CONFIG: &'static str = r#"
            SELECT id, paths_json, excluded_paths_json
            FROM scan_runs
            ORDER BY id DESC
            LIMIT 1
            "#;

/// The statement that stores a scan that begins, with its directories as JSON.
pub open spec fn run_statement(
    started_at_ms: i64,
    paths_json: Seq<char>,
    excluded_paths_json: Seq<char>,
) -> StatementModel {
    StatementModel {
        sql: INSERT_SCAN_RUN@,
        values: seq![
            ValueModel::Integer(started_at_ms),
            ValueModel::Text(paths_json),
            ValueModel::Text(excluded_paths_json),
        ],
    }
}

/// The statement that stores a scan that begins, with its directories as JSON.
pub fn insert_scan_run(started_at_ms: i64, paths_json: &str, excluded_paths_json: &str) -> (r:
    SqlStatement)
    ensures
        r.model() == run_statement(started_at_ms, paths_json@, excluded_paths_json@),
{
    let values = vec![
        SqlValue::Integer(started_at_ms),
        text_value(paths_json),
        text_value(excluded_paths_json),
    ];
    proof {
        assert(value_models(values@) =~= run_statement(
            started_at_ms,
            paths_json@,
            excluded_paths_json@,
        ).values);
    }
    statement(INSERT_SCAN_RUN, values)
}

/// The statement that stores a scan that begins, with its directories. What is
/// stored of the directories is read back as it was.
pub fn create_scan_run(started_at_ms: i64, paths: &Vec<String>, excluded_paths: &Vec<String>) -> (r:
    Result<SqlStatement, String>)
    ensures
        r matches Ok(stored) && stored.model() == run_statement(
            started_at_ms,
            json_of_list(texts(paths@)),
            json_of_list(texts(excluded_paths@)),
        ),
        forall|id: i64|
            (#[trigger] config_read(
                id,
                list_in_json(json_of_list(texts(paths@))),
                list_in_json(json_of_list(texts(excluded_paths@))),
            )) matches Ok((read, excluded)) && read == texts(paths@) && excluded == texts(
                excluded_paths@,
            ),
{
    let paths_json = match list_to_json(paths) {
        Ok(json) => json,
        Err(error) => {
            return Err("扫描目录序列化失败：".to_string().concat(error.as_str()));
        },
    };
    let excluded_paths_json = match list_to_json(excluded_paths) {
        Ok(json) => json,
        Err(error) => {
            return Err("排除目录序列化失败：".to_string().concat(error.as_str()));
        },
    };
    Ok(insert_scan_run(started_at_ms, paths_json.as_str(), excluded_paths_json.as_str()))
}

/// The values that store how a scan ended.
pub open spec fn summary_values(
    summary: ScanSummary,
    error_message: Option<Seq<char>>,
    failed_roots_json: Seq<char>,
) -> Seq<ValueModel> {
    seq![
        ValueModel::Integer(summary.scan_id),
        ValueModel::Integer(summary.completed_at_ms),
        ValueModel::Integer(summary.duration_ms),
        ValueModel::Integer(summary.scanned_files as i64),
        ValueModel::Integer(summary.imported_files as i64),
        ValueModel::Integer(summary.skipped_files as i64),
        ValueModel::Integer(summary.skipped_short_files as i64),
        ValueModel::Integer(summary.recorded_directories as i64),
        flag(summary.ffprobe_missing),
        ValueModel::Text(summary.status@),
        text_or_null(error_message),
        ValueModel::Text(failed_roots_json),
    ]
}

/// The statement that stores how a scan ended.
pub fn finish_scan_run(
    summary: &ScanSummary,
    error_message: &Option<String>,
    failed_roots_json: &str,
) -> (r: SqlStatement)
    ensures
        r.model() == (StatementModel {
            sql: UPDATE_SCAN_RUN@,
            values: summary_values(*summary, opt_text(*error_message), failed_roots_json@),
        }),
{
    let values = vec![
        SqlValue::Integer(summary.scan_id),
        SqlValue::Integer(summary.completed_at_ms),
        SqlValue::Integer(summary.duration_ms),
        SqlValue::Integer(summary.scanned_files as i64),
        SqlValue::Integer(summary.imported_files as i64),
        SqlValue::Integer(summary.skipped_files as i64),
        SqlValue::Integer(summary.skipped_short_files as i64),
        SqlValue::Integer(summary.recorded_directories as i64),
        flag_value(summary.ffprobe_missing),
        text_value(summary.status.as_str()),
        opt_text_value(error_message),
        text_value(failed_roots_json),
    ];
    proof {
        assert(value_models(values@) =~= summary_values(
            *summary,
            opt_text(*error_message),
            failed_roots_json@,
        ));
    }
    statement(UPDATE_SCAN_RUN, values)
}

/// What is told where the end of a scan was not stored.
pub open spec fn unfinished_error(changed: nat, scan_id: i64) -> Option<Seq<char>> {
    if changed == 1 {
        None
    } else {
        Some("扫描历史 "@ + decimal(scan_id as int) + " 不存在"@)
    }
}

/// Whether the end of a scan was stored: exactly one row has to change.
pub fn check_scan_finished(changed: usize, scan_id: i64) -> (r: Result<(), String>)
    ensures
        r is Ok <==> changed == 1,
        r matches Err(message) ==> message@ == "扫描历史 "@ + decimal(scan_id as int) + " 不存在"@,
        match unfinished_error(changed as nat, scan_id) {
            Some(error) => r matches Err(message) && message@ == error,
            None => r is Ok,
        },
{
    if changed == 1 {
        return Ok(());
    }
    let id = decimal_text(scan_id);
    Err("扫描历史 ".to_string().concat(id.as_str()).concat(" 不存在"))
}

// ---------------------------------------------------------------------------
// The history of scans
// ---------------------------------------------------------------------------

/// The row of a scan, with lists as JSON.
pub struct StoredScanRun {
    pub id: i64,
    pub started_at_ms: i64,
    pub completed_at_ms: i64,
    pub duration_ms: i64,
    pub scanned_files: i64,
    pub imported_files: i64,
    pub skipped_files: i64,
    pub skipped_short_files: i64,
    pub recorded_directories: i64,
    pub ffprobe_missing: i64,
    pub status: String,
    pub error_message: Option<String>,
    pub paths_json: String,
    pub excluded_paths_json: String,
    pub created_at: String,
}

/// A scan of the history.
pub struct ScanRun {
    pub id: i64,
    pub started_at_ms: i64,
    pub completed_at_ms: i64,
    pub duration_ms: i64,
    pub scanned_files: i64,
    pub imported_files: i64,
    pub skipped_files: i64,
    pub skipped_short_files: i64,
    pub recorded_directories: i64,
    pub ffprobe_missing: bool,
    pub status: String,
    pub error_message: Option<String>,
    pub failed_roots: Vec<FailedRoot>,
    pub paths: Vec<String>,
    pub excluded_paths: Vec<String>,
    pub created_at: String,
}

/// The directories of a scan.
pub struct ScanConfig {
    pub paths: Vec<String>,
    pub excluded_paths: Vec<String>,
}

/// What part of which scan is read.
pub open spec fn history_part(id: i64, part: Seq<char>) -> Seq<char> {
    "扫描历史 "@ + decimal(id as int) + part
}

/// What part of which scan is read.
pub fn history_context(id: i64, part: &str) -> (r: String)
    ensures
        r@ == history_part(id, part@),
{
    let number = decimal_text(id);
    "扫描历史 ".to_string().concat(number.as_str()).concat(part)
}

/// The directories that were scanned and left out, as read from JSON: the
/// first that cannot be read is reported.
pub open spec fn config_read(
    id: i64,
    paths: Result<Seq<Seq<char>>, Seq<char>>,
    excluded_paths: Result<Seq<Seq<char>>, Seq<char>>,
) -> Result<(Seq<Seq<char>>, Seq<Seq<char>>), Seq<char>> {
    match (
        read_list(history_part(id, " 的扫描目录"@), paths),
        read_list(history_part(id, " 的排除目录"@), excluded_paths),
    ) {
        (Err(error), _) => Err(error),
        (Ok(_), Err(error)) => Err(error),
        (Ok(paths), Ok(excluded)) => Ok((paths, excluded)),
    }
}

fn read_config(id: i64, paths_json: &str, excluded_paths_json: &str) -> (r: Result<
    ScanConfig,
    String,
>)
    ensures
        match config_read(id, list_in_json(paths_json@), list_in_json(excluded_paths_json@)) {
            Ok((paths, excluded)) => r matches Ok(config) && texts(config.paths@) == paths
                && texts(config.excluded_paths@) == excluded,
            Err(error) => r matches Err(message) && message@ == error,
        },
{
    let paths_context = history_context(id, " 的扫描目录");
    let paths = match parse_string_list_json(paths_json, paths_context.as_str()) {
        Ok(paths) => paths,
        Err(error) => {
            return Err(error);
        },
    };
    let excluded_context = history_context(id, " 的排除目录");
    match parse_string_list_json(excluded_paths_json, excluded_context.as_str()) {
        Ok(excluded_paths) => Ok(ScanConfig { paths, excluded_paths }),
        Err(error) => Err(error),
    }
}

/// The directories of the latest scan; none if there was none.
pub fn load_last_scan_config(row: Option<(i64, String, String)>) -> (r: Result<ScanConfig, String>)
    ensures
        match row {
            None => r matches Ok(config) && config.paths@.len() == 0
                && config.excluded_paths@.len() == 0,
            Some((id, paths_json, excluded_paths_json)) => match config_read(
                id,
                list_in_json(paths_json@),
                list_in_json(excluded_paths_json@),
            ) {
                Ok((paths, excluded)) => r matches Ok(config) && texts(config.paths@) == paths
                    && texts(config.excluded_paths@) == excluded,
                Err(error) => r matches Err(message) && message@ == error,
            },
        },
{
    match row {
        Some((id, paths_json, excluded_paths_json)) => read_config(
            id,
            paths_json.as_str(),
            excluded_paths_json.as_str(),
        ),
        None => Ok(ScanConfig { paths: Vec::new(), excluded_paths: Vec::new() }),
    }
}

/// A scan of the history holds what its row does.
pub open spec fn run_holds_row(run: ScanRun, row: StoredScanRun) -> bool {
    &&& run.id == row.id
    &&& run.started_at_ms == row.started_at_ms
    &&& run.completed_at_ms == row.completed_at_ms
    &&& run.duration_ms == row.duration_ms
    &&& run.scanned_files == row.scanned_files
    &&& run.imported_files == row.imported_files
    &&& run.skipped_files == row.skipped_files
    &&& run.skipped_short_files == row.skipped_short_files
    &&& run.recorded_directories == row.recorded_directories
    &&& run.ffprobe_missing == (row.ffprobe_missing != 0)
    &&& run.status == row.status
    &&& run.error_message == row.error_message
    &&& run.created_at == row.created_at
}

/// A scan of the history, with the failed roots that were read for it. What
/// cannot be read is reported: the failed roots first, then the directories.
pub fn load_scan_run(row: StoredScanRun, failed_roots: Result<Vec<FailedRoot>, String>) -> (r: Result<
    ScanRun,
    String,
>)
    ensures
        match (
            failed_roots,
            config_read(
                row.id,
                list_in_json(row.paths_json@),
                list_in_json(row.excluded_paths_json@),
            ),
        ) {
            (Err(error), _) => r matches Err(message) && message@ == read_failed(row.id, error@),
            (Ok(_), Err(error)) => r matches Err(message) && message@ == error,
            (Ok(failed), Ok((paths, excluded))) => {
                &&& r matches Ok(run)
                &&& run_holds_row(run, row)
                &&& run.failed_roots == failed
                &&& texts(run.paths@) == paths
                &&& texts(run.excluded_paths@) == excluded
            },
        },
{
    let failed_roots = match failed_roots {
        Ok(failed_roots) => failed_roots,
        Err(error) => {
            let context = history_context(row.id, " 的失败目录");
            return Err(crate::json::corrupt_message(context.as_str(), error.as_str()));
        },
    };
    let config = match read_config(
        row.id,
        row.paths_json.as_str(),
        row.excluded_paths_json.as_str(),
    ) {
        Ok(config) => config,
        Err(error) => {
            return Err(error);
        },
    };
    Ok(
        ScanRun {
            id: row.id,
            started_at_ms: row.started_at_ms,
            completed_at_ms: row.completed_at_ms,
            duration_ms: row.duration_ms,
            scanned_files: row.scanned_files,
            imported_files: row.imported_files,
            skipped_files: row.skipped_files,
            skipped_short_files: row.skipped_short_files,
            recorded_directories: row.recorded_directories,
            ffprobe_missing: row.ffprobe_missing != 0,
            status: row.status,
            error_message: row.error_message,
            failed_roots,
            paths: config.paths,
            excluded_paths: config.excluded_paths,
            created_at: row.created_at,
        },
    )
}

/// What is reported of failed roots that cannot be read.
pub open spec fn read_failed(id: i64, error: Seq<char>) -> Seq<char> {
    crate::json::corrupt(history_part(id, " 的失败目录"@), error)
}

} // verus!
