//! The schema of the database: its tables, and what brings an older one up to
//! date.

use vstd::prelude::*;
use vstd::string::*;

use crate::analysis::{directory_of, directory_path_of, opt_source_key};
use crate::directories::{
    artist_among, infer_artist_from_directory, infer_series_family, parent_names, series_family,
};
use crate::media::{file_kind, media_kind_for_file, ResourceVariant};
use crate::paths::{normalized_path_string, path_key, PathRules};
use crate::rules::{detected_series, detected_series_for_file, stored, stored_text};
use crate::statements::{
    opt_text_value, statement, text_or_null, value_models, SqlStatement, SqlValue, StatementModel,
    ValueModel,
};
use crate::text::{ascii_lower, opt_text, same_text, texts, to_ascii_lower};
use crate::titles::group_source_key;

verus! {

// ---------------------------------------------------------------------------
// Tables and columns
// ---------------------------------------------------------------------------

/// The version of the schema that this library works on.
pub const DATABASE_SCHEMA_VERSION: i64 = 1;

/// The tables.
pub const CREATE_TABLES: &'static str = r#"
        CREATE TABLE IF NOT EXISTS media_files (
          id INTEGER PRIMARY KEY,
          path TEXT NOT NULL UNIQUE,
          file_name TEXT NOT NULL,
          root_path TEXT NOT NULL,
          root_key TEXT NOT NULL DEFAULT '',
          directory_path TEXT NOT NULL DEFAULT '',
          media_kind TEXT NOT NULL DEFAULT '',
          file_size INTEGER NOT NULL,
          modified_ms INTEGER,
          duration_seconds REAL,
          container TEXT,
          video_codec TEXT,
          audio_codec TEXT,
          width INTEGER,
          height INTEGER,
          resolution TEXT,
          source TEXT,
          release_group TEXT,
          season_number INTEGER,
          episode_number INTEGER,
          title_guess TEXT NOT NULL,
          item_key TEXT NOT NULL,
          music_artist TEXT,
          music_album TEXT,
          music_title TEXT,
          music_artist_source TEXT,
          music_artist_key TEXT,
          series_title TEXT,
          series_source TEXT,
          series_key TEXT,
          family_key TEXT,
          created_at TEXT NOT NULL DEFAULT CURRENT_TIMESTAMP,
          updated_at TEXT NOT NULL DEFAULT CURRENT_TIMESTAMP
        );

        CREATE TABLE IF NOT EXISTS merge_rules (
          kind TEXT NOT NULL,
          source_key TEXT NOT NULL,
          target_name TEXT NOT NULL,
          created_at TEXT NOT NULL DEFAULT CURRENT_TIMESTAMP,
          updated_at TEXT NOT NULL DEFAULT CURRENT_TIMESTAMP,
          PRIMARY KEY (kind, source_key)
        );

        CREATE TABLE IF NOT EXISTS scan_runs (
          id INTEGER PRIMARY KEY,
          started_at_ms INTEGER NOT NULL,
          completed_at_ms INTEGER NOT NULL,
          duration_ms INTEGER NOT NULL,
          scanned_files INTEGER NOT NULL,
          imported_files INTEGER NOT NULL,
          skipped_files INTEGER NOT NULL,
          skipped_short_files INTEGER NOT NULL,
          recorded_directories INTEGER NOT NULL,
          ffprobe_missing INTEGER NOT NULL DEFAULT 0,
          status TEXT NOT NULL DEFAULT 'completed',
          error_message TEXT,
          failed_roots_json TEXT NOT NULL DEFAULT '[]',
          paths_json TEXT NOT NULL DEFAULT '[]',
          excluded_paths_json TEXT NOT NULL DEFAULT '[]',
          created_at TEXT NOT NULL DEFAULT CURRENT_TIMESTAMP
        );

        CREATE TABLE IF NOT EXISTS scan_skips (
          id INTEGER PRIMARY KEY,
          scan_id INTEGER,
          path TEXT NOT NULL,
          file_name TEXT NOT NULL,
          root_path TEXT NOT NULL,
          root_key TEXT NOT NULL DEFAULT '',
          reason TEXT NOT NULL,
          detail TEXT NOT NULL,
          is_short_video INTEGER NOT NULL DEFAULT 0,
          file_size INTEGER,
          modified_ms INTEGER,
          created_at TEXT NOT NULL DEFAULT CURRENT_TIMESTAMP,
          updated_at TEXT NOT NULL DEFAULT CURRENT_TIMESTAMP
        );
        "#;

/// The indexes.
pub const CREATE_INDEXES: &'static str = r#"
        CREATE INDEX IF NOT EXISTS idx_media_files_item_key ON media_files(item_key);
        CREATE INDEX IF NOT EXISTS idx_media_files_title ON media_files(title_guess);
        CREATE INDEX IF NOT EXISTS idx_media_files_root_key ON media_files(root_key);
        CREATE INDEX IF NOT EXISTS idx_media_files_directory ON media_files(media_kind, directory_path);
        CREATE INDEX IF NOT EXISTS idx_media_files_artist_key ON media_files(music_artist_key);
        CREATE INDEX IF NOT EXISTS idx_media_files_series_key ON media_files(series_key);
        CREATE INDEX IF NOT EXISTS idx_media_files_family_key ON media_files(family_key);
        CREATE INDEX IF NOT EXISTS idx_merge_rules_kind ON merge_rules(kind);
        CREATE INDEX IF NOT EXISTS idx_scan_skips_scan ON scan_skips(scan_id, is_short_video);
        CREATE INDEX IF NOT EXISTS idx_scan_skips_root_key ON scan_skips(root_key);
        CREATE INDEX IF NOT EXISTS idx_scan_runs_completed ON scan_runs(completed_at_ms DESC);
        "#;

/// Turns the table of left-out files that had one row for each path into one
/// with the scan of each row; the rows stay, without a scan.
pub const MIGRATE_SCAN_SKIPS: &'static str = r#"
        BEGIN IMMEDIATE;
        ALTER TABLE scan_skips RENAME TO scan_skips_legacy;
        CREATE TABLE scan_skips (
          id INTEGER PRIMARY KEY,
          scan_id INTEGER,
          path TEXT NOT NULL,
          file_name TEXT NOT NULL,
          root_path TEXT NOT NULL,
          root_key TEXT NOT NULL DEFAULT '',
          reason TEXT NOT NULL,
          detail TEXT NOT NULL,
          is_short_video INTEGER NOT NULL DEFAULT 0,
          file_size INTEGER,
          modified_ms INTEGER,
          created_at TEXT NOT NULL DEFAULT CURRENT_TIMESTAMP,
          updated_at TEXT NOT NULL DEFAULT CURRENT_TIMESTAMP
        );
        INSERT INTO scan_skips (
          id, scan_id, path, file_name, root_path, root_key, reason, detail,
          is_short_video, file_size, modified_ms, created_at, updated_at
        )
        SELECT
          id, NULL, path, file_name, root_path, '', reason, detail,
          is_short_video, file_size, modified_ms, created_at, updated_at
        FROM scan_skips_legacy;
        DROP TABLE scan_skips_legacy;
        COMMIT;
        "#;

/// A column that a table of an older version may lack.
pub struct ColumnSpec {
    pub table: String,
    pub column: String,
    pub definition: String,
}

/// A column as a value: its table, its name and its definition.
pub open spec fn column(table: Seq<char>, name: Seq<char>, definition: Seq<char>) -> (
    Seq<char>,
    Seq<char>,
    Seq<char>,
) {
    (table, name, definition)
}

impl ColumnSpec {
    pub open spec fn model(self) -> (Seq<char>, Seq<char>, Seq<char>) {
        column(self.table@, self.column@, self.definition@)
    }
}

/// The columns that a table of an older version may lack.
pub open spec fn later_columns() -> Seq<(Seq<char>, Seq<char>, Seq<char>)> {
    seq![
        column("media_files"@, "music_artist"@, "TEXT"@),
        column("media_files"@, "music_album"@, "TEXT"@),
        column("media_files"@, "music_title"@, "TEXT"@),
        column("media_files"@, "music_artist_source"@, "TEXT"@),
        column("media_files"@, "series_title"@, "TEXT"@),
        column("media_files"@, "series_source"@, "TEXT"@),
        column("media_files"@, "root_key"@, "TEXT NOT NULL DEFAULT ''"@),
        column("media_files"@, "directory_path"@, "TEXT NOT NULL DEFAULT ''"@),
        column("media_files"@, "media_kind"@, "TEXT NOT NULL DEFAULT ''"@),
        column("media_files"@, "music_artist_key"@, "TEXT"@),
        column("media_files"@, "series_key"@, "TEXT"@),
        column("media_files"@, "family_key"@, "TEXT"@),
        column("scan_runs"@, "status"@, "TEXT NOT NULL DEFAULT 'completed'"@),
        column("scan_runs"@, "error_message"@, "TEXT"@),
        column("scan_runs"@, "failed_roots_json"@, "TEXT NOT NULL DEFAULT '[]'"@),
    ]
}

fn column_spec(table: &str, name: &str, definition: &str) -> (r: ColumnSpec)
    ensures
        r.model() == column(table@, name@, definition@),
{
    ColumnSpec {
        table: table.to_string(),
        column: name.to_string(),
        definition: definition.to_string(),
    }
}

/// The columns that a table of an older version may lack.
pub fn required_columns() -> (r: Vec<ColumnSpec>)
    ensures
        r@.map_values(|c: ColumnSpec| c.model()) == later_columns(),
{
    let r = vec![
        column_spec("media_files", "music_artist", "TEXT"),
        column_spec("media_files", "music_album", "TEXT"),
        column_spec("media_files", "music_title", "TEXT"),
        column_spec("media_files", "music_artist_source", "TEXT"),
        column_spec("media_files", "series_title", "TEXT"),
        column_spec("media_files", "series_source", "TEXT"),
        column_spec("media_files", "root_key", "TEXT NOT NULL DEFAULT ''"),
        column_spec("media_files", "directory_path", "TEXT NOT NULL DEFAULT ''"),
        column_spec("media_files", "media_kind", "TEXT NOT NULL DEFAULT ''"),
        column_spec("media_files", "music_artist_key", "TEXT"),
        column_spec("media_files", "series_key", "TEXT"),
        column_spec("media_files", "family_key", "TEXT"),
        column_spec("scan_runs", "status", "TEXT NOT NULL DEFAULT 'completed'"),
        column_spec("scan_runs", "error_message", "TEXT"),
        column_spec("scan_runs", "failed_roots_json", "TEXT NOT NULL DEFAULT '[]'"),
    ];
    proof {
        assert(r@.map_values(|c: ColumnSpec| c.model()) =~= later_columns());
    }
    r
}

/// A column is among those of a table, without regard to the case of ASCII
/// letters.
pub open spec fn has_column(existing: Seq<Seq<char>>, name: Seq<char>) -> bool {
    exists|i: int| 0 <= i < existing.len() && ascii_lower(#[trigger] existing[i]) == ascii_lower(name)
}

/// Whether a column is among those of a table.
pub fn table_has_column(existing: &Vec<String>, name: &str) -> (r: bool)
    ensures
        r == has_column(texts(existing@), name@),
{
    let ghost all = texts(existing@);
    let wanted = to_ascii_lower(name);
    let mut i: usize = 0;
    while i < existing.len()
        invariant
            i <= existing@.len(),
            all == texts(existing@),
            wanted@ == ascii_lower(name@),
            forall|j: int| 0 <= j < i ==> ascii_lower(#[trigger] all[j]) != ascii_lower(name@),
        decreases existing@.len() - i,
    {
        proof {
            assert(all[i as int] == existing@[i as int]@);
        }
        if to_ascii_lower(existing[i].as_str()) == wanted {
            return true;
        }
        i += 1;
    }
    false
}

/// The statement that adds a column to a table.
pub open spec fn alteration(wanted: (Seq<char>, Seq<char>, Seq<char>)) -> Seq<char> {
    "ALTER TABLE "@ + wanted.0 + " ADD COLUMN "@ + wanted.1 + " "@ + wanted.2
}

/// The statement that adds a column to a table, where the table lacks it.
pub fn add_column_if_missing(existing: &Vec<String>, wanted: &ColumnSpec) -> (r: Option<String>)
    ensures
        opt_text(r) == (if has_column(texts(existing@), wanted.column@) {
            None
        } else {
            Some(alteration(wanted.model()))
        }),
{
    if table_has_column(existing, wanted.column.as_str()) {
        return None;
    }
    Some(
        "ALTER TABLE ".to_string().concat(wanted.table.as_str()).concat(" ADD COLUMN ").concat(
            wanted.column.as_str(),
        ).concat(" ").concat(wanted.definition.as_str()),
    )
}

/// The script that turns the table of left-out files with these columns, where
/// it has to be turned.
pub open spec fn migration_of(existing: Seq<Seq<char>>) -> Option<Seq<char>> {
    if has_column(existing, "scan_id"@) {
        None
    } else {
        Some(MIGRATE_SCAN_SKIPS@)
    }
}

/// A database of this version has rows to be completed.
pub open spec fn is_older(schema_version: i64) -> bool {
    schema_version < 1
}

/// The script that turns the table of left-out files of an older version into
/// one with the scan of each row, where it has to be turned.
pub fn migrate_scan_skips(existing: &Vec<String>) -> (r: Option<String>)
    ensures
        opt_text(r) == (if has_column(texts(existing@), "scan_id"@) {
            None
        } else {
            Some(MIGRATE_SCAN_SKIPS@)
        }),
        opt_text(r) == migration_of(texts(existing@)),
{
    if table_has_column(existing, "scan_id") {
        None
    } else {
        Some(MIGRATE_SCAN_SKIPS.to_string())
    }
}

/// The names of the columns that the tables have.
pub struct TableColumns {
    pub media_files: Vec<String>,
    pub scan_runs: Vec<String>,
    pub scan_skips: Vec<String>,
}

/// What brings a database up to date, between [`CREATE_TABLES`] and
/// [`CREATE_INDEXES`].
pub struct SchemaPlan {
    /// The columns to be added, in order.
    pub alterations: Vec<String>,
    /// The script to be run then.
    pub migration: Option<String>,
    /// Whether rows of an older version are to be completed then, and the
    /// version to be set.
    pub backfill: bool,
}

/// A table lacks a column that it should have.
pub open spec fn is_missing(
    columns: TableColumns,
    wanted: (Seq<char>, Seq<char>, Seq<char>),
) -> bool {
    !has_column(
        if wanted.0 == "media_files"@ {
            texts(columns.media_files@)
        } else {
            texts(columns.scan_runs@)
        },
        wanted.1,
    )
}

/// The statements that add the columns that are missing, in order.
pub open spec fn alterations_of(
    columns: TableColumns,
    wanted: Seq<(Seq<char>, Seq<char>, Seq<char>)>,
) -> Seq<Seq<char>>
    decreases wanted.len(),
{
    if wanted.len() == 0 {
        Seq::empty()
    } else {
        let before = alterations_of(columns, wanted.drop_last());
        if is_missing(columns, wanted.last()) {
            before.push(alteration(wanted.last()))
        } else {
            before
        }
    }
}

/// What brings a database with these columns and of this version up to date.
pub fn init_schema(columns: &TableColumns, schema_version: i64) -> (r: SchemaPlan)
    ensures
        texts(r.alterations@) == alterations_of(*columns, later_columns()),
        opt_text(r.migration) == (if has_column(texts(columns.scan_skips@), "scan_id"@) {
            None
        } else {
            Some(MIGRATE_SCAN_SKIPS@)
        }),
        r.backfill == (schema_version < DATABASE_SCHEMA_VERSION),
        opt_text(r.migration) == migration_of(texts(columns.scan_skips@)),
        r.backfill == is_older(schema_version),
{
    let wanted = required_columns();
    let ghost all = later_columns();
    let mut alterations: Vec<String> = Vec::new();
    let mut i: usize = 0;
    proof {
        assert(all.len() == wanted@.len());
        assert(all.take(0) =~= Seq::empty());
        assert(texts(alterations@) =~= Seq::empty());
    }
    while i < wanted.len()
        invariant
            i <= wanted@.len(),
            wanted@.map_values(|c: ColumnSpec| c.model()) == all,
            all.len() == wanted@.len(),
            texts(alterations@) == alterations_of(*columns, all.take(i as int)),
        decreases wanted@.len() - i,
    {
        proof {
            assert(all[i as int] == wanted@.map_values(|c: ColumnSpec| c.model())[i as int]);
            assert(all[i as int] == wanted@[i as int].model());
            assert(all.take(i + 1).drop_last() =~= all.take(i as int));
            assert(all.take(i + 1).last() == all[i as int]);
        }
        let existing = if same_text(wanted[i].table.as_str(), "media_files") {
            &columns.media_files
        } else {
            &columns.scan_runs
        };
        if let Some(alteration) = add_column_if_missing(existing, &wanted[i]) {
            let ghost before = alterations@;
            let ghost added = alteration@;
            alterations.push(alteration);
            proof {
                assert(texts(alterations@) =~= texts(before).push(added));
            }
        }
        i += 1;
    }
    proof {
        assert(all.take(wanted@.len() as int) =~= all);
    }
    SchemaPlan {
        alterations,
        migration: migrate_scan_skips(&columns.scan_skips),
        backfill: schema_version < DATABASE_SCHEMA_VERSION,
    }
}

/// What is told of a copy of a database that did not pass the check.
pub open spec fn integrity_error(report: Seq<char>) -> Option<Seq<char>> {
    if report == "ok"@ {
        None
    } else {
        Some("旧数据库完整性检查失败："@ + report)
    }
}

/// Whether a copy of a database passed the check of its integrity, by what
/// the check reported.
pub fn check_integrity(report: &str) -> (r: Result<(), String>)
    ensures
        r is Ok <==> report@ == "ok"@,
        r matches Err(message) ==> message@ == "旧数据库完整性检查失败："@ + report@,
        match integrity_error(report@) {
            Some(error) => r matches Err(message) && message@ == error,
            None => r is Ok,
        },
{
    if same_text(report, "ok") {
        Ok(())
    } else {
        Err("旧数据库完整性检查失败：".to_string().concat(report))
    }
}

// ---------------------------------------------------------------------------
// Completing rows of an older version
// ---------------------------------------------------------------------------

/// The files whose keys are to be completed.
pub const SELECT_INCOMPLETE_FILES: &'static str = r#"
        SELECT
          id, path, file_name, root_path, file_size, duration_seconds, container,
          video_codec, audio_codec, width, height, resolution, source, release_group,
          season_number, episode_number, title_guess, media_kind, music_artist, music_album,
          music_title, music_artist_source, series_title, series_source
        FROM media_files
        WHERE root_key = '' OR directory_path = '' OR media_kind = ''
           OR (media_kind = 'music' AND music_artist_key IS NULL)
           OR (media_kind = 'video' AND series_key IS NULL)
        "#;

/// Completes the keys of a file.
pub const UPDATE_INDEX_FIELDS: &'static str = r#"
            UPDATE media_files
            SET root_key = ?2,
                directory_path = ?3,
                media_kind = ?4,
                music_artist_key = ?5,
                series_key = ?6,
                family_key = ?7
            WHERE id = ?1
            "#;

/// The left-out files whose root keys are to be completed.
pub const SELECT_INCOMPLETE_SKIPS: &'static str =
    "SELECT id, root_path FROM scan_skips WHERE root_key = ''";

/// Completes the root key of a left-out file.
pub const UPDATE_SKIP_ROOT_KEY: &'static str =
    "UPDATE scan_skips SET root_key = ?2 WHERE id = ?1";

/// The kind that is stored for a file: the one it has, else that of its
/// extension and streams, else none of those that are shown.
pub open spec fn stored_kind(file: ResourceVariant, windows: bool) -> Seq<char> {
    if file.media_kind@.len() > 0 {
        file.media_kind@
    } else {
        match file_kind(file, windows) {
            Some(kind) => kind,
            None => "ignored"@,
        }
    }
}

/// The artist of a stored file, where there is one.
pub open spec fn stored_artist(file: ResourceVariant, windows: bool) -> Option<Seq<char>> {
    match stored(file.music_artist) {
        Some(artist) => Some(artist),
        None => artist_among(parent_names(file.path@, file.root_path@, windows)),
    }
}

/// The family of the series of a stored file, where there is one.
pub open spec fn stored_family(file: ResourceVariant, windows: bool) -> Option<Seq<char>> {
    match detected_series(file, windows) {
        Some(series) => series_family(file.path@, file.root_path@, series, windows),
        None => None,
    }
}

/// The values that complete the row of a file.
pub open spec fn index_fields(
    file: ResourceVariant,
    resolved_root: Seq<char>,
    windows: bool,
) -> Seq<ValueModel> {
    seq![
        ValueModel::Integer(file.id),
        ValueModel::Text(path_key(resolved_root, windows)),
        ValueModel::Text(directory_of(file.path@, file.root_path@, windows)),
        ValueModel::Text(stored_kind(file, windows)),
        text_or_null(opt_source_key("music_artist"@, stored_artist(file, windows))),
        text_or_null(opt_source_key("video_series"@, detected_series(file, windows))),
        text_or_null(opt_source_key("video_series"@, stored_family(file, windows))),
    ]
}

fn key_of(kind: &str, name: &Option<String>) -> (r: Option<String>)
    ensures
        opt_text(r) == opt_source_key(kind@, opt_text(*name)),
{
    match name {
        Some(name) => Some(group_source_key(kind, name.as_str())),
        None => None,
    }
}

/// The statement that completes the row of a file, whose root was found to be
/// `resolved_root`.
pub fn backfill_media_index_fields(
    file: &ResourceVariant,
    resolved_root: &str,
    rules: PathRules,
) -> (r: SqlStatement)
    ensures
        r.model() == (StatementModel {
            sql: UPDATE_INDEX_FIELDS@,
            values: index_fields(*file, resolved_root@, rules.windows()),
        }),
{
    let media_kind = if file.media_kind.as_str().is_empty() {
        match media_kind_for_file(file, rules) {
            Some(kind) => kind,
            None => "ignored".to_string(),
        }
    } else {
        file.media_kind.clone()
    };
    let artist = match stored_text(&file.music_artist) {
        Some(artist) => Some(artist),
        None => infer_artist_from_directory(file.path.as_str(), file.root_path.as_str(), rules),
    };
    let series = detected_series_for_file(file, rules);
    let family = match &series {
        Some(series) => infer_series_family(
            file.path.as_str(),
            file.root_path.as_str(),
            series.as_str(),
            rules,
        ),
        None => None,
    };
    let root_key = normalized_path_string(resolved_root, rules);
    let directory = directory_path_of(file.path.as_str(), file.root_path.as_str(), rules);
    let values = vec![
        SqlValue::Integer(file.id),
        SqlValue::Text(root_key),
        SqlValue::Text(directory),
        SqlValue::Text(media_kind),
        opt_text_value(&key_of("music_artist", &artist)),
        opt_text_value(&key_of("video_series", &series)),
        opt_text_value(&key_of("video_series", &family)),
    ];
    proof {
        assert(value_models(values@) =~= index_fields(*file, resolved_root@, rules.windows()));
    }
    statement(UPDATE_INDEX_FIELDS, values)
}

/// The statement that completes the root key of a left-out file.
pub fn backfill_scan_skip_root_keys(id: i64, resolved_root: &str, rules: PathRules) -> (r:
    SqlStatement)
    ensures
        r.model() == (StatementModel {
            sql: UPDATE_SKIP_ROOT_KEY@,
            values: seq![
                ValueModel::Integer(id),
                ValueModel::Text(path_key(resolved_root@, rules.windows())),
            ],
        }),
{
    let values = vec![
        SqlValue::Integer(id),
        SqlValue::Text(normalized_path_string(resolved_root, rules)),
    ];
    proof {
        assert(value_models(values@) =~= seq![
            ValueModel::Integer(id),
            ValueModel::Text(path_key(resolved_root@, rules.windows())),
        ]);
    }
    statement(UPDATE_SKIP_ROOT_KEY, values)
}

// ---------------------------------------------------------------------------
// Laws
// ---------------------------------------------------------------------------

/// A column that was added is not added again, whatever was there before.
pub proof fn added_columns_are_there(existing: Seq<Seq<char>>, name: Seq<char>, other: Seq<char>)
    ensures
        has_column(existing.push(name), name),
        has_column(existing, other) ==> has_column(existing.push(name), other),
{
    let all = existing.push(name);
    assert(all[existing.len() as int] == name);
    if has_column(existing, other) {
        let i = choose|i: int|
            0 <= i < existing.len() && ascii_lower(#[trigger] existing[i]) == ascii_lower(other);
        assert(all[i] == existing[i]);
    }
}

proof fn lemma_nothing_missing(
    columns: TableColumns,
    wanted: Seq<(Seq<char>, Seq<char>, Seq<char>)>,
)
    requires
        forall|i: int| 0 <= i < wanted.len() ==> !is_missing(columns, #[trigger] wanted[i]),
    ensures
        alterations_of(columns, wanted) == Seq::<Seq<char>>::empty(),
    decreases wanted.len(),
{
    if wanted.len() > 0 {
        assert forall|i: int| 0 <= i < wanted.drop_last().len() implies !is_missing(
            columns,
            #[trigger] wanted.drop_last()[i],
        ) by {
            assert(wanted.drop_last()[i] == wanted[i]);
        }
        lemma_nothing_missing(columns, wanted.drop_last());
        assert(!is_missing(columns, wanted[wanted.len() - 1]));
    }
}

/// A database that has every column is not altered.
pub proof fn complete_tables_stay(columns: TableColumns)
    requires
        forall|i: int|
            0 <= i < later_columns().len() ==> !is_missing(columns, #[trigger] later_columns()[i]),
    ensures
        alterations_of(columns, later_columns()) == Seq::<Seq<char>>::empty(),
{
    lemma_nothing_missing(columns, later_columns());
}

} // verus!
