//! What a scan is set up with: laws on the directories that it works on and on
//! the database that it is stored in.

use vstd::prelude::*;
use vstd::string::*;

use crate::config::{
    config_of, exclusion_error, exclusions_of, is_covered, root_at, roots_of, with_root,
    RootModel, RootSpec, ScanPath,
};
use crate::media::ResourceVariant;
use crate::paths::{is_below, path_key, shown_path};
use crate::schema::{
    alteration, alterations_of, has_column, integrity_error, is_missing, is_older,
    later_columns, migration_of, stored_artist, stored_family, stored_kind, ColumnSpec,
    TableColumns, CREATE_INDEXES, CREATE_TABLES, DATABASE_SCHEMA_VERSION, MIGRATE_SCAN_SKIPS,
    SELECT_INCOMPLETE_SKIPS, UPDATE_SKIP_ROOT_KEY,
};
use crate::store::{COUNT_DIRECTORIES, DELETE_ROOT_FILES, HISTORY_LIMIT, SELECT_LAST_CONFIG};
use crate::store_laws::lemma_join_step;
use crate::text::{
    ascii_lower, is_blank, join, joined_parts_are_found_again, split_on, texts, trimmed,
    CharClass,
};

verus! {

// ---------------------------------------------------------------------------
// Directories
// ---------------------------------------------------------------------------

/// A directory is kept with its path, the path that is shown, and its key.
pub proof fn directories_keep_their_path(path: Seq<char>, windows: bool, root: RootSpec)
    ensures
        root_at(path, windows).path == path,
        root_at(path, windows).display_path == shown_path(path, windows),
        root_at(path, windows).key == path_key(path, windows),
        root.model().path == root.path@,
        root.model().display_path == root.display_path@,
        root.model().key == root.key@,
{
}

/// A blank path is passed over. A path that cannot be resolved is reported with
/// the error, and every other one comes to the directories before it.
pub proof fn paths_become_directories(paths: Seq<ScanPath>, last: ScanPath, windows: bool)
    requires
        roots_of(paths, windows) is Ok,
    ensures
        ({
            let roots = roots_of(paths, windows)->Ok_0;
            let after = roots_of(paths.push(last), windows);
            &&& is_blank(last.given@) ==> after == Ok::<Seq<RootModel>, Seq<char>>(roots)
            &&& !is_blank(last.given@) ==> match last.resolved {
                Err(error) => after == Err::<Seq<RootModel>, Seq<char>>(
                    "无法解析扫描目录 "@ + trimmed(last.given@, CharClass::Space) + "："@ + error@,
                ),
                Ok(path) => after == Ok::<Seq<RootModel>, Seq<char>>(
                    with_root(roots, root_at(path@, windows)),
                ),
            }
        }),
{
    assert(paths.push(last).drop_last() =~= paths);
}

/// A directory that is among the others, or below one of them, changes nothing.
/// Every other one takes the place of those below it and comes behind the rest.
pub proof fn directories_hold_those_below(roots: Seq<RootModel>, root: RootModel, i: int)
    requires
        0 <= i < roots.len(),
    ensures
        roots[i].key == root.key || is_below(root.key, roots[i].key) ==> with_root(roots, root)
            == roots,
        with_root(roots, root) != roots ==> {
            &&& with_root(roots, root).last() == root
            &&& with_root(roots, root).contains(roots[i]) || is_below(roots[i].key, root.key)
        },
{
    if !is_covered(roots, root.key) {
        let kept = roots.filter(crate::config::not_below(root.key));
        crate::library::lemma_filter(roots, crate::config::not_below(root.key));
        if !is_below(roots[i].key, root.key) {
            assert(crate::config::not_below(root.key)(roots[i]));
            assert(kept.contains(roots[i]));
            let j = choose|j: int| 0 <= j < kept.len() && kept[j] == roots[i];
            assert(kept.push(root)[j] == roots[i]);
        }
    }
}

/// A directory can be left out if it lies below one that is scanned and is none
/// of them; else it is said which of the two is not so.
pub proof fn left_out_directories_lie_inside(roots: Seq<RootModel>, root: RootModel)
    ensures
        (exists|i: int| 0 <= i < roots.len() && (#[trigger] roots[i]).key == root.key)
            ==> exclusion_error(roots, root) == Some(
            "排除目录不能与扫描根目录相同："@ + root.display_path,
        ),
        (forall|i: int|
            0 <= i < roots.len() ==> (#[trigger] roots[i]).key != root.key && !is_below(
                root.key,
                roots[i].key,
            )) ==> exclusion_error(roots, root) == Some(
            "排除目录必须位于所选扫描目录内："@ + root.display_path,
        ),
        exclusion_error(roots, root) is None <==> (exists|i: int|
            0 <= i < roots.len() && is_below(root.key, (#[trigger] roots[i]).key)) && (forall|i: int|
            0 <= i < roots.len() ==> (#[trigger] roots[i]).key != root.key),
{
}

/// A path to be left out is taken like one to be scanned, and reported if it
/// cannot be left out.
pub proof fn paths_are_left_out(
    roots: Seq<RootModel>,
    paths: Seq<ScanPath>,
    last: ScanPath,
    windows: bool,
)
    requires
        exclusions_of(roots, paths, windows) is Ok,
    ensures
        ({
            let before = exclusions_of(roots, paths, windows)->Ok_0;
            let after = exclusions_of(roots, paths.push(last), windows);
            &&& is_blank(last.given@) ==> after == Ok::<Seq<RootModel>, Seq<char>>(before)
            &&& !is_blank(last.given@) ==> match last.resolved {
                Err(error) => after == Err::<Seq<RootModel>, Seq<char>>(
                    "无法解析排除目录 "@ + trimmed(last.given@, CharClass::Space) + "："@ + error@,
                ),
                Ok(path) => {
                    let root = root_at(path@, windows);
                    &&& exclusion_error(roots, root) matches Some(error) ==> after == Err::<
                        Seq<RootModel>,
                        Seq<char>,
                    >(error)
                    &&& exclusion_error(roots, root) is None ==> after == Ok::<
                        Seq<RootModel>,
                        Seq<char>,
                    >(with_root(before, root))
                },
            }
        }),
{
    assert(paths.push(last).drop_last() =~= paths);
}

/// A scan needs a directory. What it leaves out is kept by the paths that are
/// shown.
pub proof fn scans_need_a_directory(
    paths: Seq<ScanPath>,
    excluded: Seq<ScanPath>,
    windows: bool,
    i: int,
)
    ensures
        (forall|j: int| 0 <= j < paths.len() ==> is_blank((#[trigger] paths[j]).given@))
            ==> config_of(paths, excluded, windows) == Err::<
            (Seq<RootModel>, Seq<Seq<char>>),
            Seq<char>,
        >("至少需要选择一个有效目录"@),
        config_of(paths, excluded, windows) matches Ok((roots, left_out)) ==> {
            &&& roots_of(paths, windows) == Ok::<Seq<RootModel>, Seq<char>>(roots)
            &&& roots.len() > 0
            &&& exclusions_of(roots, excluded, windows) is Ok
            &&& left_out.len() == exclusions_of(roots, excluded, windows)->Ok_0.len()
            &&& 0 <= i < left_out.len() ==> left_out[i] == exclusions_of(
                roots,
                excluded,
                windows,
            )->Ok_0[i].display_path
        },
{
    if forall|j: int| 0 <= j < paths.len() ==> is_blank((#[trigger] paths[j]).given@) {
        lemma_blank_paths(paths, windows);
    }
}

proof fn lemma_blank_paths(paths: Seq<ScanPath>, windows: bool)
    requires
        forall|j: int| 0 <= j < paths.len() ==> is_blank((#[trigger] paths[j]).given@),
    ensures
        roots_of(paths, windows) == Ok::<Seq<RootModel>, Seq<char>>(Seq::empty()),
    decreases paths.len(),
{
    if paths.len() > 0 {
        let rest = paths.drop_last();
        assert forall|j: int| 0 <= j < rest.len() implies is_blank((#[trigger] rest[j]).given@) by {
            assert(rest[j] == paths[j]);
        }
        lemma_blank_paths(rest, windows);
        assert(is_blank(paths[paths.len() - 1].given@));
    }
}

// ---------------------------------------------------------------------------
// The database
// ---------------------------------------------------------------------------

/// The columns that came later, each with its table and its definition.
pub proof fn columns_that_came_later()
    ensures
        later_columns().len() == 15,
        later_columns()[0] == ("media_files"@, "music_artist"@, "TEXT"@),
        later_columns()[1] == ("media_files"@, "music_album"@, "TEXT"@),
        later_columns()[2] == ("media_files"@, "music_title"@, "TEXT"@),
        later_columns()[3] == ("media_files"@, "music_artist_source"@, "TEXT"@),
        later_columns()[4] == ("media_files"@, "series_title"@, "TEXT"@),
        later_columns()[5] == ("media_files"@, "series_source"@, "TEXT"@),
        later_columns()[6] == ("media_files"@, "root_key"@, "TEXT NOT NULL DEFAULT ''"@),
        later_columns()[7] == ("media_files"@, "directory_path"@, "TEXT NOT NULL DEFAULT ''"@),
        later_columns()[8] == ("media_files"@, "media_kind"@, "TEXT NOT NULL DEFAULT ''"@),
        later_columns()[9] == ("media_files"@, "music_artist_key"@, "TEXT"@),
        later_columns()[10] == ("media_files"@, "series_key"@, "TEXT"@),
        later_columns()[11] == ("media_files"@, "family_key"@, "TEXT"@),
        later_columns()[12] == ("scan_runs"@, "status"@, "TEXT NOT NULL DEFAULT 'completed'"@),
        later_columns()[13] == ("scan_runs"@, "error_message"@, "TEXT"@),
        later_columns()[14] == ("scan_runs"@, "failed_roots_json"@, "TEXT NOT NULL DEFAULT '[]'"@),
{
}

/// A column that a table has, whatever the case of its ASCII letters, is not
/// missing.
pub proof fn columns_are_told_by_their_name(existing: Seq<Seq<char>>, i: int, name: Seq<char>)
    requires
        0 <= i < existing.len(),
    ensures
        ascii_lower(existing[i]) == ascii_lower(name) ==> has_column(existing, name),
        (forall|j: int|
            0 <= j < existing.len() ==> ascii_lower(#[trigger] existing[j]) != ascii_lower(name))
            ==> !has_column(existing, name),
{
}

/// A column is looked for in the table that it belongs to.
pub proof fn columns_belong_to_their_table(
    columns: TableColumns,
    name: Seq<char>,
    definition: Seq<char>,
)
    ensures
        is_missing(columns, ("media_files"@, name, definition)) <==> !has_column(
            texts(columns.media_files@),
            name,
        ),
        is_missing(columns, ("scan_runs"@, name, definition)) <==> !has_column(
            texts(columns.scan_runs@),
            name,
        ),
{
    reveal_strlit("media_files");
    reveal_strlit("scan_runs");
    assert("media_files"@[0] != "scan_runs"@[0]);
}

/// A column is added to its table with its definition.
pub proof fn columns_are_added_to_their_table(
    table: Seq<char>,
    name: Seq<char>,
    definition: Seq<char>,
    spec: ColumnSpec,
)
    ensures
        alteration((table, name, definition)) == "ALTER TABLE "@ + table + " ADD COLUMN "@ + name
            + " "@ + definition,
        spec.model() == (spec.table@, spec.column@, spec.definition@),
{
}

/// Each column that is missing is added, and no other.
pub proof fn missing_columns_are_added(
    columns: TableColumns,
    wanted: Seq<(Seq<char>, Seq<char>, Seq<char>)>,
    i: int,
    j: int,
)
    requires
        0 <= i < wanted.len(),
    ensures
        is_missing(columns, wanted[i]) ==> alterations_of(columns, wanted).contains(
            alteration(wanted[i]),
        ),
        0 <= j < alterations_of(columns, wanted).len() ==> exists|k: int|
            0 <= k < wanted.len() && is_missing(columns, #[trigger] wanted[k]) && alterations_of(
                columns,
                wanted,
            )[j] == alteration(wanted[k]),
    decreases wanted.len(),
{
    let rest = wanted.drop_last();
    let last = wanted[wanted.len() - 1];
    let before = alterations_of(columns, rest);
    let all = alterations_of(columns, wanted);
    assert(alterations_of(columns, Seq::empty()).len() == 0);
    if is_missing(columns, last) {
        assert(all[before.len() as int] == alteration(last));
    }
    if rest.len() == 0 {
        assert(before.len() == 0) by {
            assert(rest =~= Seq::empty());
        }
        assert(wanted[0] == last);
    } else {
        if i < rest.len() {
            missing_columns_are_added(columns, rest, i, j);
            assert(rest[i] == wanted[i]);
            if is_missing(columns, wanted[i]) {
                let at = choose|at: int| 0 <= at < before.len() && before[at] == alteration(rest[i]);
                assert(all[at] == before[at]);
            }
        } else {
            missing_columns_are_added(columns, rest, 0, j);
        }
        if 0 <= j < before.len() {
            let k = choose|k: int|
                0 <= k < rest.len() && is_missing(columns, #[trigger] rest[k]) && before[j]
                    == alteration(rest[k]);
            assert(wanted[k] == rest[k]);
            assert(all[j] == before[j]);
        }
    }
}

/// The kind of an older row is the stored one, else the one that its streams
/// and its name tell, and else that of a file to be ignored; its artist is the
/// stored one or that of its directories, and its family that of its series.
pub proof fn older_rows_have_their_names(file: ResourceVariant, windows: bool)
    ensures
        file.media_kind@.len() > 0 ==> stored_kind(file, windows) == file.media_kind@,
        file.media_kind@.len() == 0 && crate::media::file_kind(file, windows) is Some
            ==> stored_kind(file, windows) == crate::media::file_kind(file, windows)->0,
        file.media_kind@.len() == 0 && crate::media::file_kind(file, windows) is None
            ==> stored_kind(file, windows) == "ignored"@,
        crate::rules::stored(file.music_artist) is Some ==> stored_artist(file, windows)
            == crate::rules::stored(file.music_artist),
        crate::rules::stored(file.music_artist) is None ==> stored_artist(file, windows)
            == crate::directories::artist_among(
            crate::directories::parent_names(file.path@, file.root_path@, windows),
        ),
        crate::rules::detected_series(file, windows) is None ==> stored_family(file, windows)
            is None,
        crate::rules::detected_series(file, windows) matches Some(series) ==> stored_family(
            file,
            windows,
        ) == crate::directories::series_family(file.path@, file.root_path@, series, windows),
{
}

/// Left-out files of a table without the number of a scan are turned by the
/// script, and rows are completed in a database from before the first version.
pub proof fn older_databases_are_turned(existing: Seq<Seq<char>>, version: i64, report: Seq<char>)
    ensures
        has_column(existing, "scan_id"@) ==> migration_of(existing) is None,
        !has_column(existing, "scan_id"@) ==> migration_of(existing) == Some(MIGRATE_SCAN_SKIPS@),
        is_older(version) <==> version < 1,
        report == "ok"@ ==> integrity_error(report) is None,
        report != "ok"@ ==> integrity_error(report) == Some("旧数据库完整性检查失败："@ + report),
{
}

/// The rows of a root are removed by its key, left-out files without one are
/// completed under their number, directories are counted by kind and path, the
/// latest scan is the one with the highest number, the database is of the first
/// version, and the history shows the latest fifty scans.
pub proof fn short_statements_say_what_they_do()
    ensures
        DELETE_ROOT_FILES@ == "DELETE FROM media_files WHERE root_key = ?1"@,
        SELECT_INCOMPLETE_SKIPS@ == "SELECT id, root_path FROM scan_skips WHERE root_key = ''"@,
        UPDATE_SKIP_ROOT_KEY@ == "UPDATE scan_skips SET root_key = ?2 WHERE id = ?1"@,
        COUNT_DIRECTORIES@ == r#"
        SELECT COUNT(*)
        FROM (
          SELECT DISTINCT media_kind, directory_path
          FROM media_files
          WHERE media_kind IN ('music', 'video') AND directory_path <> ''
        )
        "#@,
        SELECT_LAST_CONFIG@ == r#"
            SELECT id, paths_json, excluded_paths_json
            FROM scan_runs
            ORDER BY id DESC
            LIMIT 1
            "#@,
        CREATE_INDEXES@ == r#"
        CREATE INDEX IF NOT EXISTS idx_media_files_item_key ON media_files(item_key);
        CREATE INDEX IF NOT EXISTS idx_media_files_title ON media_files(title_guess);
        CREATE INDEX IF NOT EXISTS idx_media_files_root_key ON media_files(root_key);
        CREATE INDEX IF NOT EXISTS idx_media_files_directory ON media_files(media_kind, directory_path);
        CREATE INDEX IF NOT EXISTS idx_media_files_artist_key ON media_files(music_artist_key);
        CREATE INDEX IF NOT EXISTS idx_media_files_series_key ON media_files(series_key);
        CREATE INDEX IF NOT EXISTS idx_media_files_family_key ON media_files(family_key);
        CREATE INDEX IF NOT EXISTS idx_merge_rules_kind ON merge_rules(kind);
        CREATE INDEX IF NOT EXISTS idx_scan_skips_scan ON scan_skips(scan_id, is_short_video);
        CREATE INDEX IF NOT EXISTS idx_scan_skips_root_key ON scan_skips(root_key);
        CREATE INDEX IF NOT EXISTS idx_scan_runs_completed ON scan_runs(completed_at_ms DESC);
        "#@,
        DATABASE_SCHEMA_VERSION == 1,
        HISTORY_LIMIT == 50,
{
}

/// The columns of the table of files.
pub open spec fn media_file_columns() -> Seq<Seq<char>> {
    seq![
        "\n          id INTEGER PRIMARY KEY"@,
        "\n          path TEXT NOT NULL UNIQUE"@,
        "\n          file_name TEXT NOT NULL"@,
        "\n          root_path TEXT NOT NULL"@,
        "\n          root_key TEXT NOT NULL DEFAULT ''"@,
        "\n          directory_path TEXT NOT NULL DEFAULT ''"@,
        "\n          media_kind TEXT NOT NULL DEFAULT ''"@,
        "\n          file_size INTEGER NOT NULL"@,
        "\n          modified_ms INTEGER"@,
        "\n          duration_seconds REAL"@,
        "\n          container TEXT"@,
        "\n          video_codec TEXT"@,
        "\n          audio_codec TEXT"@,
        "\n          width INTEGER"@,
        "\n          height INTEGER"@,
        "\n          resolution TEXT"@,
        "\n          source TEXT"@,
        "\n          release_group TEXT"@,
        "\n          season_number INTEGER"@,
        "\n          episode_number INTEGER"@,
        "\n          title_guess TEXT NOT NULL"@,
        "\n          item_key TEXT NOT NULL"@,
        "\n          music_artist TEXT"@,
        "\n          music_album TEXT"@,
        "\n          music_title TEXT"@,
        "\n          music_artist_source TEXT"@,
        "\n          music_artist_key TEXT"@,
        "\n          series_title TEXT"@,
        "\n          series_source TEXT"@,
        "\n          series_key TEXT"@,
        "\n          family_key TEXT"@,
        "\n          created_at TEXT NOT NULL DEFAULT CURRENT_TIMESTAMP"@,
        "\n          updated_at TEXT NOT NULL DEFAULT CURRENT_TIMESTAMP"@,
    ]
}

#[verifier::spinoff_prover]
#[verifier::rlimit(60)]
proof fn lemma_media_file_columns()
    ensures
        split_on(CREATE_TABLES@.subrange(49, 1176), ',') == media_file_columns(),
{
    let text = CREATE_TABLES@.subrange(49, 1176);
    let parts = media_file_columns();
    let comma = seq![','];
    reveal_strlit(r#"
        CREATE TABLE IF NOT EXISTS media_files (
          id INTEGER PRIMARY KEY,
          path TEXT NOT NULL UNIQUE,
          file_name TEXT NOT NULL,
          root_path TEXT NOT NULL,
          root_key TEXT NOT NULL DEFAULT '',
          directory_path TEXT NOT NULL DEFAULT '',
          media_kind TEXT NOT NULL DEFAULT '',
          file_size INTEGER NOT NULL,
          modified_ms INTEGER,
          duration_seconds REAL,
          container TEXT,
          video_codec TEXT,
          audio_codec TEXT,
          width INTEGER,
          height INTEGER,
          resolution TEXT,
          source TEXT,
          release_group TEXT,
          season_number INTEGER,
          episode_number INTEGER,
          title_guess TEXT NOT NULL,
          item_key TEXT NOT NULL,
          music_artist TEXT,
          music_album TEXT,
          music_title TEXT,
          music_artist_source TEXT,
          music_artist_key TEXT,
          series_title TEXT,
          series_source TEXT,
          series_key TEXT,
          family_key TEXT,
          created_at TEXT NOT NULL DEFAULT CURRENT_TIMESTAMP,
          updated_at TEXT NOT NULL DEFAULT CURRENT_TIMESTAMP
        );

        CREATE TABLE IF NOT EXISTS merge_rules (
          kind TEXT NOT NULL,
          source_key TEXT NOT NULL,
          target_name TEXT NOT NULL,
          created_at TEXT NOT NULL DEFAULT CURRENT_TIMESTAMP,
          updated_at TEXT NOT NULL DEFAULT CURRENT_TIMESTAMP,
          PRIMARY KEY (kind, source_key)
        );

        CREATE TABLE IF NOT EXISTS scan_runs (
          id INTEGER PRIMARY KEY,
          started_at_ms INTEGER NOT NULL,
          completed_at_ms INTEGER NOT NULL,
          duration_ms INTEGER NOT NULL,
          scanned_files INTEGER NOT NULL,
          imported_files INTEGER NOT NULL,
          skipped_files INTEGER NOT NULL,
          skipped_short_files INTEGER NOT NULL,
          recorded_directories INTEGER NOT NULL,
          ffprobe_missing INTEGER NOT NULL DEFAULT 0,
          status TEXT NOT NULL DEFAULT 'completed',
          error_message TEXT,
          failed_roots_json TEXT NOT NULL DEFAULT '[]',
          paths_json TEXT NOT NULL DEFAULT '[]',
          excluded_paths_json TEXT NOT NULL DEFAULT '[]',
          created_at TEXT NOT NULL DEFAULT CURRENT_TIMESTAMP
        );

        CREATE TABLE IF NOT EXISTS scan_skips (
          id INTEGER PRIMARY KEY,
          scan_id INTEGER,
          path TEXT NOT NULL,
          file_name TEXT NOT NULL,
          root_path TEXT NOT NULL,
          root_key TEXT NOT NULL DEFAULT '',
          reason TEXT NOT NULL,
          detail TEXT NOT NULL,
          is_short_video INTEGER NOT NULL DEFAULT 0,
          file_size INTEGER,
          modified_ms INTEGER,
          created_at TEXT NOT NULL DEFAULT CURRENT_TIMESTAMP,
          updated_at TEXT NOT NULL DEFAULT CURRENT_TIMESTAMP
        );
        "#);
    assert(CREATE_TABLES@.len() == 2894);
    reveal_strlit("\n          id INTEGER PRIMARY KEY");
    assert(text.subrange(0, 33) =~= "\n          id INTEGER PRIMARY KEY"@);
    assert(!"\n          id INTEGER PRIMARY KEY"@.contains(','));
    assert(parts.take(1) =~= seq![parts[0]]);
    assert(text.take(33) =~= text.subrange(0, 33));
    assert(join(parts.take(1), comma) == text.take(33));
    reveal_strlit("\n          path TEXT NOT NULL UNIQUE");
    assert(text.subrange(34, 70) =~= "\n          path TEXT NOT NULL UNIQUE"@);
    assert(!"\n          path TEXT NOT NULL UNIQUE"@.contains(','));
    assert(text[33] == ',');
    lemma_join_step(text, parts, 1, 33, 70);
    reveal_strlit("\n          file_name TEXT NOT NULL");
    assert(text.subrange(71, 105) =~= "\n          file_name TEXT NOT NULL"@);
    assert(!"\n          file_name TEXT NOT NULL"@.contains(','));
    assert(text[70] == ',');
    lemma_join_step(text, parts, 2, 70, 105);
    reveal_strlit("\n          root_path TEXT NOT NULL");
    assert(text.subrange(106, 140) =~= "\n          root_path TEXT NOT NULL"@);
    assert(!"\n          root_path TEXT NOT NULL"@.contains(','));
    assert(text[105] == ',');
    lemma_join_step(text, parts, 3, 105, 140);
    reveal_strlit("\n          root_key TEXT NOT NULL DEFAULT ''");
    assert(text.subrange(141, 185) =~= "\n          root_key TEXT NOT NULL DEFAULT ''"@);
    assert(!"\n          root_key TEXT NOT NULL DEFAULT ''"@.contains(','));
    assert(text[140] == ',');
    lemma_join_step(text, parts, 4, 140, 185);
    reveal_strlit("\n          directory_path TEXT NOT NULL DEFAULT ''");
    assert(text.subrange(186, 236) =~= "\n          directory_path TEXT NOT NULL DEFAULT ''"@);
    assert(!"\n          directory_path TEXT NOT NULL DEFAULT ''"@.contains(','));
    assert(text[185] == ',');
    lemma_join_step(text, parts, 5, 185, 236);
    reveal_strlit("\n          media_kind TEXT NOT NULL DEFAULT ''");
    assert(text.subrange(237, 283) =~= "\n          media_kind TEXT NOT NULL DEFAULT ''"@);
    assert(!"\n          media_kind TEXT NOT NULL DEFAULT ''"@.contains(','));
    assert(text[236] == ',');
    lemma_join_step(text, parts, 6, 236, 283);
    reveal_strlit("\n          file_size INTEGER NOT NULL");
    assert(text.subrange(284, 321) =~= "\n          file_size INTEGER NOT NULL"@);
    assert(!"\n          file_size INTEGER NOT NULL"@.contains(','));
    assert(text[283] == ',');
    lemma_join_step(text, parts, 7, 283, 321);
    reveal_strlit("\n          modified_ms INTEGER");
    assert(text.subrange(322, 352) =~= "\n          modified_ms INTEGER"@);
    assert(!"\n          modified_ms INTEGER"@.contains(','));
    assert(text[321] == ',');
    lemma_join_step(text, parts, 8, 321, 352);
    reveal_strlit("\n          duration_seconds REAL");
    assert(text.subrange(353, 385) =~= "\n          duration_seconds REAL"@);
    assert(!"\n          duration_seconds REAL"@.contains(','));
    assert(text[352] == ',');
    lemma_join_step(text, parts, 9, 352, 385);
    reveal_strlit("\n          container TEXT");
    assert(text.subrange(386, 411) =~= "\n          container TEXT"@);
    assert(!"\n          container TEXT"@.contains(','));
    assert(text[385] == ',');
    lemma_join_step(text, parts, 10, 385, 411);
    reveal_strlit("\n          video_codec TEXT");
    assert(text.subrange(412, 439) =~= "\n          video_codec TEXT"@);
    assert(!"\n          video_codec TEXT"@.contains(','));
    assert(text[411] == ',');
    lemma_join_step(text, parts, 11, 411, 439);
    reveal_strlit("\n          audio_codec TEXT");
    assert(text.subrange(440, 467) =~= "\n          audio_codec TEXT"@);
    assert(!"\n          audio_codec TEXT"@.contains(','));
    assert(text[439] == ',');
    lemma_join_step(text, parts, 12, 439, 467);
    reveal_strlit("\n          width INTEGER");
    assert(text.subrange(468, 492) =~= "\n          width INTEGER"@);
    assert(!"\n          width INTEGER"@.contains(','));
    assert(text[467] == ',');
    lemma_join_step(text, parts, 13, 467, 492);
    reveal_strlit("\n          height INTEGER");
    assert(text.subrange(493, 518) =~= "\n          height INTEGER"@);
    assert(!"\n          height INTEGER"@.contains(','));
    assert(text[492] == ',');
    lemma_join_step(text, parts, 14, 492, 518);
    reveal_strlit("\n          resolution TEXT");
    assert(text.subrange(519, 545) =~= "\n          resolution TEXT"@);
    assert(!"\n          resolution TEXT"@.contains(','));
    assert(text[518] == ',');
    lemma_join_step(text, parts, 15, 518, 545);
    reveal_strlit("\n          source TEXT");
    assert(text.subrange(546, 568) =~= "\n          source TEXT"@);
    assert(!"\n          source TEXT"@.contains(','));
    assert(text[545] == ',');
    lemma_join_step(text, parts, 16, 545, 568);
    reveal_strlit("\n          release_group TEXT");
    assert(text.subrange(569, 598) =~= "\n          release_group TEXT"@);
    assert(!"\n          release_group TEXT"@.contains(','));
    assert(text[568] == ',');
    lemma_join_step(text, parts, 17, 568, 598);
    reveal_strlit("\n          season_number INTEGER");
    assert(text.subrange(599, 631) =~= "\n          season_number INTEGER"@);
    assert(!"\n          season_number INTEGER"@.contains(','));
    assert(text[598] == ',');
    lemma_join_step(text, parts, 18, 598, 631);
    reveal_strlit("\n          episode_number INTEGER");
    assert(text.subrange(632, 665) =~= "\n          episode_number INTEGER"@);
    assert(!"\n          episode_number INTEGER"@.contains(','));
    assert(text[631] == ',');
    lemma_join_step(text, parts, 19, 631, 665);
    reveal_strlit("\n          title_guess TEXT NOT NULL");
    assert(text.subrange(666, 702) =~= "\n          title_guess TEXT NOT NULL"@);
    assert(!"\n          title_guess TEXT NOT NULL"@.contains(','));
    assert(text[665] == ',');
    lemma_join_step(text, parts, 20, 665, 702);
    reveal_strlit("\n          item_key TEXT NOT NULL");
    assert(text.subrange(703, 736) =~= "\n          item_key TEXT NOT NULL"@);
    assert(!"\n          item_key TEXT NOT NULL"@.contains(','));
    assert(text[702] == ',');
    lemma_join_step(text, parts, 21, 702, 736);
    reveal_strlit("\n          music_artist TEXT");
    assert(text.subrange(737, 765) =~= "\n          music_artist TEXT"@);
    assert(!"\n          music_artist TEXT"@.contains(','));
    assert(text[736] == ',');
    lemma_join_step(text, parts, 22, 736, 765);
    reveal_strlit("\n          music_album TEXT");
    assert(text.subrange(766, 793) =~= "\n          music_album TEXT"@);
    assert(!"\n          music_album TEXT"@.contains(','));
    assert(text[765] == ',');
    lemma_join_step(text, parts, 23, 765, 793);
    reveal_strlit("\n          music_title TEXT");
    assert(text.subrange(794, 821) =~= "\n          music_title TEXT"@);
    assert(!"\n          music_title TEXT"@.contains(','));
    assert(text[793] == ',');
    lemma_join_step(text, parts, 24, 793, 821);
    reveal_strlit("\n          music_artist_source TEXT");
    assert(text.subrange(822, 857) =~= "\n          music_artist_source TEXT"@);
    assert(!"\n          music_artist_source TEXT"@.contains(','));
    assert(text[821] == ',');
    lemma_join_step(text, parts, 25, 821, 857);
    reveal_strlit("\n          music_artist_key TEXT");
    assert(text.subrange(858, 890) =~= "\n          music_artist_key TEXT"@);
    assert(!"\n          music_artist_key TEXT"@.contains(','));
    assert(text[857] == ',');
    lemma_join_step(text, parts, 26, 857, 890);
    reveal_strlit("\n          series_title TEXT");
    assert(text.subrange(891, 919) =~= "\n          series_title TEXT"@);
    assert(!"\n          series_title TEXT"@.contains(','));
    assert(text[890] == ',');
    lemma_join_step(text, parts, 27, 890, 919);
    reveal_strlit("\n          series_source TEXT");
    assert(text.subrange(920, 949) =~= "\n          series_source TEXT"@);
    assert(!"\n          series_source TEXT"@.contains(','));
    assert(text[919] == ',');
    lemma_join_step(text, parts, 28, 919, 949);
    reveal_strlit("\n          series_key TEXT");
    assert(text.subrange(950, 976) =~= "\n          series_key TEXT"@);
    assert(!"\n          series_key TEXT"@.contains(','));
    assert(text[949] == ',');
    lemma_join_step(text, parts, 29, 949, 976);
    reveal_strlit("\n          family_key TEXT");
    assert(text.subrange(977, 1003) =~= "\n          family_key TEXT"@);
    assert(!"\n          family_key TEXT"@.contains(','));
    assert(text[976] == ',');
    lemma_join_step(text, parts, 30, 976, 1003);
    reveal_strlit("\n          created_at TEXT NOT NULL DEFAULT CURRENT_TIMESTAMP");
    assert(text.subrange(1004, 1065) =~= "\n          created_at TEXT NOT NULL DEFAULT CURRENT_TIMESTAMP"@);
    assert(!"\n          created_at TEXT NOT NULL DEFAULT CURRENT_TIMESTAMP"@.contains(','));
    assert(text[1003] == ',');
    lemma_join_step(text, parts, 31, 1003, 1065);
    reveal_strlit("\n          updated_at TEXT NOT NULL DEFAULT CURRENT_TIMESTAMP");
    assert(text.subrange(1066, 1127) =~= "\n          updated_at TEXT NOT NULL DEFAULT CURRENT_TIMESTAMP"@);
    assert(!"\n          updated_at TEXT NOT NULL DEFAULT CURRENT_TIMESTAMP"@.contains(','));
    assert(text[1065] == ',');
    lemma_join_step(text, parts, 32, 1065, 1127);
    assert(parts.take(33) =~= parts);
    assert(text.take(1127) =~= text);
    assert forall|i: int| 0 <= i < parts.len() implies !(#[trigger] parts[i]).contains(',') by {
        assert(0 <= i < 33);
    }
    joined_parts_are_found_again(parts, ',');
}

/// The table has its columns.
pub proof fn files_have_a_table()
    ensures
        split_on(CREATE_TABLES@.subrange(49, 1176), ',').len() == 33,
        split_on(CREATE_TABLES@.subrange(49, 1176), ',')[0] == "\n          id INTEGER PRIMARY KEY"@,
        split_on(CREATE_TABLES@.subrange(49, 1176), ',')[1] == "\n          path TEXT NOT NULL UNIQUE"@,
        split_on(CREATE_TABLES@.subrange(49, 1176), ',')[2] == "\n          file_name TEXT NOT NULL"@,
        split_on(CREATE_TABLES@.subrange(49, 1176), ',')[3] == "\n          root_path TEXT NOT NULL"@,
        split_on(CREATE_TABLES@.subrange(49, 1176), ',')[4] == "\n          root_key TEXT NOT NULL DEFAULT ''"@,
        split_on(CREATE_TABLES@.subrange(49, 1176), ',')[5] == "\n          directory_path TEXT NOT NULL DEFAULT ''"@,
        split_on(CREATE_TABLES@.subrange(49, 1176), ',')[6] == "\n          media_kind TEXT NOT NULL DEFAULT ''"@,
        split_on(CREATE_TABLES@.subrange(49, 1176), ',')[7] == "\n          file_size INTEGER NOT NULL"@,
        split_on(CREATE_TABLES@.subrange(49, 1176), ',')[8] == "\n          modified_ms INTEGER"@,
        split_on(CREATE_TABLES@.subrange(49, 1176), ',')[9] == "\n          duration_seconds REAL"@,
        split_on(CREATE_TABLES@.subrange(49, 1176), ',')[10] == "\n          container TEXT"@,
        split_on(CREATE_TABLES@.subrange(49, 1176), ',')[11] == "\n          video_codec TEXT"@,
        split_on(CREATE_TABLES@.subrange(49, 1176), ',')[12] == "\n          audio_codec TEXT"@,
        split_on(CREATE_TABLES@.subrange(49, 1176), ',')[13] == "\n          width INTEGER"@,
        split_on(CREATE_TABLES@.subrange(49, 1176), ',')[14] == "\n          height INTEGER"@,
        split_on(CREATE_TABLES@.subrange(49, 1176), ',')[15] == "\n          resolution TEXT"@,
        split_on(CREATE_TABLES@.subrange(49, 1176), ',')[16] == "\n          source TEXT"@,
        split_on(CREATE_TABLES@.subrange(49, 1176), ',')[17] == "\n          release_group TEXT"@,
        split_on(CREATE_TABLES@.subrange(49, 1176), ',')[18] == "\n          season_number INTEGER"@,
        split_on(CREATE_TABLES@.subrange(49, 1176), ',')[19] == "\n          episode_number INTEGER"@,
        split_on(CREATE_TABLES@.subrange(49, 1176), ',')[20] == "\n          title_guess TEXT NOT NULL"@,
        split_on(CREATE_TABLES@.subrange(49, 1176), ',')[21] == "\n          item_key TEXT NOT NULL"@,
        split_on(CREATE_TABLES@.subrange(49, 1176), ',')[22] == "\n          music_artist TEXT"@,
        split_on(CREATE_TABLES@.subrange(49, 1176), ',')[23] == "\n          music_album TEXT"@,
        split_on(CREATE_TABLES@.subrange(49, 1176), ',')[24] == "\n          music_title TEXT"@,
        split_on(CREATE_TABLES@.subrange(49, 1176), ',')[25] == "\n          music_artist_source TEXT"@,
        split_on(CREATE_TABLES@.subrange(49, 1176), ',')[26] == "\n          music_artist_key TEXT"@,
        split_on(CREATE_TABLES@.subrange(49, 1176), ',')[27] == "\n          series_title TEXT"@,
        split_on(CREATE_TABLES@.subrange(49, 1176), ',')[28] == "\n          series_source TEXT"@,
        split_on(CREATE_TABLES@.subrange(49, 1176), ',')[29] == "\n          series_key TEXT"@,
        split_on(CREATE_TABLES@.subrange(49, 1176), ',')[30] == "\n          family_key TEXT"@,
        split_on(CREATE_TABLES@.subrange(49, 1176), ',')[31] == "\n          created_at TEXT NOT NULL DEFAULT CURRENT_TIMESTAMP"@,
        split_on(CREATE_TABLES@.subrange(49, 1176), ',')[32] == "\n          updated_at TEXT NOT NULL DEFAULT CURRENT_TIMESTAMP"@,
{
    lemma_media_file_columns();
}

/// The columns of the table of rules.
pub open spec fn merge_rule_columns() -> Seq<Seq<char>> {
    seq![
        "\n          kind TEXT NOT NULL"@,
        "\n          source_key TEXT NOT NULL"@,
        "\n          target_name TEXT NOT NULL"@,
        "\n          created_at TEXT NOT NULL DEFAULT CURRENT_TIMESTAMP"@,
        "\n          updated_at TEXT NOT NULL DEFAULT CURRENT_TIMESTAMP"@,
        "\n          PRIMARY KEY (kind"@,
        " source_key)"@,
    ]
}

#[verifier::spinoff_prover]
#[verifier::rlimit(60)]
proof fn lemma_merge_rule_columns()
    ensures
        split_on(CREATE_TABLES@.subrange(1237, 1505), ',') == merge_rule_columns(),
{
    let text = CREATE_TABLES@.subrange(1237, 1505);
    let parts = merge_rule_columns();
    let comma = seq![','];
    reveal_strlit(r#"
        CREATE TABLE IF NOT EXISTS media_files (
          id INTEGER PRIMARY KEY,
          path TEXT NOT NULL UNIQUE,
          file_name TEXT NOT NULL,
          root_path TEXT NOT NULL,
          root_key TEXT NOT NULL DEFAULT '',
          directory_path TEXT NOT NULL DEFAULT '',
          media_kind TEXT NOT NULL DEFAULT '',
          file_size INTEGER NOT NULL,
          modified_ms INTEGER,
          duration_seconds REAL,
          container TEXT,
          video_codec TEXT,
          audio_codec TEXT,
          width INTEGER,
          height INTEGER,
          resolution TEXT,
          source TEXT,
          release_group TEXT,
          season_number INTEGER,
          episode_number INTEGER,
          title_guess TEXT NOT NULL,
          item_key TEXT NOT NULL,
          music_artist TEXT,
          music_album TEXT,
          music_title TEXT,
          music_artist_source TEXT,
          music_artist_key TEXT,
          series_title TEXT,
          series_source TEXT,
          series_key TEXT,
          family_key TEXT,
          created_at TEXT NOT NULL DEFAULT CURRENT_TIMESTAMP,
          updated_at TEXT NOT NULL DEFAULT CURRENT_TIMESTAMP
        );

        CREATE TABLE IF NOT EXISTS merge_rules (
          kind TEXT NOT NULL,
          source_key TEXT NOT NULL,
          target_name TEXT NOT NULL,
          created_at TEXT NOT NULL DEFAULT CURRENT_TIMESTAMP,
          updated_at TEXT NOT NULL DEFAULT CURRENT_TIMESTAMP,
          PRIMARY KEY (kind, source_key)
        );

        CREATE TABLE IF NOT EXISTS scan_runs (
          id INTEGER PRIMARY KEY,
          started_at_ms INTEGER NOT NULL,
          completed_at_ms INTEGER NOT NULL,
          duration_ms INTEGER NOT NULL,
          scanned_files INTEGER NOT NULL,
          imported_files INTEGER NOT NULL,
          skipped_files INTEGER NOT NULL,
          skipped_short_files INTEGER NOT NULL,
          recorded_directories INTEGER NOT NULL,
          ffprobe_missing INTEGER NOT NULL DEFAULT 0,
          status TEXT NOT NULL DEFAULT 'completed',
          error_message TEXT,
          failed_roots_json TEXT NOT NULL DEFAULT '[]',
          paths_json TEXT NOT NULL DEFAULT '[]',
          excluded_paths_json TEXT NOT NULL DEFAULT '[]',
          created_at TEXT NOT NULL DEFAULT CURRENT_TIMESTAMP
        );

        CREATE TABLE IF NOT EXISTS scan_skips (
          id INTEGER PRIMARY KEY,
          scan_id INTEGER,
          path TEXT NOT NULL,
          file_name TEXT NOT NULL,
          root_path TEXT NOT NULL,
          root_key TEXT NOT NULL DEFAULT '',
          reason TEXT NOT NULL,
          detail TEXT NOT NULL,
          is_short_video INTEGER NOT NULL DEFAULT 0,
          file_size INTEGER,
          modified_ms INTEGER,
          created_at TEXT NOT NULL DEFAULT CURRENT_TIMESTAMP,
          updated_at TEXT NOT NULL DEFAULT CURRENT_TIMESTAMP
        );
        "#);
    assert(CREATE_TABLES@.len() == 2894);
    reveal_strlit("\n          kind TEXT NOT NULL");
    assert(text.subrange(0, 29) =~= "\n          kind TEXT NOT NULL"@);
    assert(!"\n          kind TEXT NOT NULL"@.contains(','));
    assert(parts.take(1) =~= seq![parts[0]]);
    assert(text.take(29) =~= text.subrange(0, 29));
    assert(join(parts.take(1), comma) == text.take(29));
    reveal_strlit("\n          source_key TEXT NOT NULL");
    assert(text.subrange(30, 65) =~= "\n          source_key TEXT NOT NULL"@);
    assert(!"\n          source_key TEXT NOT NULL"@.contains(','));
    assert(text[29] == ',');
    lemma_join_step(text, parts, 1, 29, 65);
    reveal_strlit("\n          target_name TEXT NOT NULL");
    assert(text.subrange(66, 102) =~= "\n          target_name TEXT NOT NULL"@);
    assert(!"\n          target_name TEXT NOT NULL"@.contains(','));
    assert(text[65] == ',');
    lemma_join_step(text, parts, 2, 65, 102);
    reveal_strlit("\n          created_at TEXT NOT NULL DEFAULT CURRENT_TIMESTAMP");
    assert(text.subrange(103, 164) =~= "\n          created_at TEXT NOT NULL DEFAULT CURRENT_TIMESTAMP"@);
    assert(!"\n          created_at TEXT NOT NULL DEFAULT CURRENT_TIMESTAMP"@.contains(','));
    assert(text[102] == ',');
    lemma_join_step(text, parts, 3, 102, 164);
    reveal_strlit("\n          updated_at TEXT NOT NULL DEFAULT CURRENT_TIMESTAMP");
    assert(text.subrange(165, 226) =~= "\n          updated_at TEXT NOT NULL DEFAULT CURRENT_TIMESTAMP"@);
    assert(!"\n          updated_at TEXT NOT NULL DEFAULT CURRENT_TIMESTAMP"@.contains(','));
    assert(text[164] == ',');
    lemma_join_step(text, parts, 4, 164, 226);
    reveal_strlit("\n          PRIMARY KEY (kind");
    assert(text.subrange(227, 255) =~= "\n          PRIMARY KEY (kind"@);
    assert(!"\n          PRIMARY KEY (kind"@.contains(','));
    assert(text[226] == ',');
    lemma_join_step(text, parts, 5, 226, 255);
    reveal_strlit(" source_key)");
    assert(text.subrange(256, 268) =~= " source_key)"@);
    assert(!" source_key)"@.contains(','));
    assert(text[255] == ',');
    lemma_join_step(text, parts, 6, 255, 268);
    assert(parts.take(7) =~= parts);
    assert(text.take(268) =~= text);
    assert forall|i: int| 0 <= i < parts.len() implies !(#[trigger] parts[i]).contains(',') by {
        assert(0 <= i < 7);
    }
    joined_parts_are_found_again(parts, ',');
}

/// The table has its columns.
pub proof fn rules_have_a_table()
    ensures
        split_on(CREATE_TABLES@.subrange(1237, 1505), ',').len() == 7,
        split_on(CREATE_TABLES@.subrange(1237, 1505), ',')[0] == "\n          kind TEXT NOT NULL"@,
        split_on(CREATE_TABLES@.subrange(1237, 1505), ',')[1] == "\n          source_key TEXT NOT NULL"@,
        split_on(CREATE_TABLES@.subrange(1237, 1505), ',')[2] == "\n          target_name TEXT NOT NULL"@,
        split_on(CREATE_TABLES@.subrange(1237, 1505), ',')[3] == "\n          created_at TEXT NOT NULL DEFAULT CURRENT_TIMESTAMP"@,
        split_on(CREATE_TABLES@.subrange(1237, 1505), ',')[4] == "\n          updated_at TEXT NOT NULL DEFAULT CURRENT_TIMESTAMP"@,
        split_on(CREATE_TABLES@.subrange(1237, 1505), ',')[5] == "\n          PRIMARY KEY (kind"@,
        split_on(CREATE_TABLES@.subrange(1237, 1505), ',')[6] == " source_key)"@,
{
    lemma_merge_rule_columns();
}

/// The columns of the table of scans.
pub open spec fn scan_run_columns() -> Seq<Seq<char>> {
    seq![
        "\n          id INTEGER PRIMARY KEY"@,
        "\n          started_at_ms INTEGER NOT NULL"@,
        "\n          completed_at_ms INTEGER NOT NULL"@,
        "\n          duration_ms INTEGER NOT NULL"@,
        "\n          scanned_files INTEGER NOT NULL"@,
        "\n          imported_files INTEGER NOT NULL"@,
        "\n          skipped_files INTEGER NOT NULL"@,
        "\n          skipped_short_files INTEGER NOT NULL"@,
        "\n          recorded_directories INTEGER NOT NULL"@,
        "\n          ffprobe_missing INTEGER NOT NULL DEFAULT 0"@,
        "\n          status TEXT NOT NULL DEFAULT 'completed'"@,
        "\n          error_message TEXT"@,
        "\n          failed_roots_json TEXT NOT NULL DEFAULT '[]'"@,
        "\n          paths_json TEXT NOT NULL DEFAULT '[]'"@,
        "\n          excluded_paths_json TEXT NOT NULL DEFAULT '[]'"@,
        "\n          created_at TEXT NOT NULL DEFAULT CURRENT_TIMESTAMP"@,
    ]
}

#[verifier::spinoff_prover]
#[verifier::rlimit(60)]
proof fn lemma_scan_run_columns()
    ensures
        split_on(CREATE_TABLES@.subrange(1564, 2308), ',') == scan_run_columns(),
{
    let text = CREATE_TABLES@.subrange(1564, 2308);
    let parts = scan_run_columns();
    let comma = seq![','];
    reveal_strlit(r#"
        CREATE TABLE IF NOT EXISTS media_files (
          id INTEGER PRIMARY KEY,
          path TEXT NOT NULL UNIQUE,
          file_name TEXT NOT NULL,
          root_path TEXT NOT NULL,
          root_key TEXT NOT NULL DEFAULT '',
          directory_path TEXT NOT NULL DEFAULT '',
          media_kind TEXT NOT NULL DEFAULT '',
          file_size INTEGER NOT NULL,
          modified_ms INTEGER,
          duration_seconds REAL,
          container TEXT,
          video_codec TEXT,
          audio_codec TEXT,
          width INTEGER,
          height INTEGER,
          resolution TEXT,
          source TEXT,
          release_group TEXT,
          season_number INTEGER,
          episode_number INTEGER,
          title_guess TEXT NOT NULL,
          item_key TEXT NOT NULL,
          music_artist TEXT,
          music_album TEXT,
          music_title TEXT,
          music_artist_source TEXT,
          music_artist_key TEXT,
          series_title TEXT,
          series_source TEXT,
          series_key TEXT,
          family_key TEXT,
          created_at TEXT NOT NULL DEFAULT CURRENT_TIMESTAMP,
          updated_at TEXT NOT NULL DEFAULT CURRENT_TIMESTAMP
        );

        CREATE TABLE IF NOT EXISTS merge_rules (
          kind TEXT NOT NULL,
          source_key TEXT NOT NULL,
          target_name TEXT NOT NULL,
          created_at TEXT NOT NULL DEFAULT CURRENT_TIMESTAMP,
          updated_at TEXT NOT NULL DEFAULT CURRENT_TIMESTAMP,
          PRIMARY KEY (kind, source_key)
        );

        CREATE TABLE IF NOT EXISTS scan_runs (
          id INTEGER PRIMARY KEY,
          started_at_ms INTEGER NOT NULL,
          completed_at_ms INTEGER NOT NULL,
          duration_ms INTEGER NOT NULL,
          scanned_files INTEGER NOT NULL,
          imported_files INTEGER NOT NULL,
          skipped_files INTEGER NOT NULL,
          skipped_short_files INTEGER NOT NULL,
          recorded_directories INTEGER NOT NULL,
          ffprobe_missing INTEGER NOT NULL DEFAULT 0,
          status TEXT NOT NULL DEFAULT 'completed',
          error_message TEXT,
          failed_roots_json TEXT NOT NULL DEFAULT '[]',
          paths_json TEXT NOT NULL DEFAULT '[]',
          excluded_paths_json TEXT NOT NULL DEFAULT '[]',
          created_at TEXT NOT NULL DEFAULT CURRENT_TIMESTAMP
        );

        CREATE TABLE IF NOT EXISTS scan_skips (
          id INTEGER PRIMARY KEY,
          scan_id INTEGER,
          path TEXT NOT NULL,
          file_name TEXT NOT NULL,
          root_path TEXT NOT NULL,
          root_key TEXT NOT NULL DEFAULT '',
          reason TEXT NOT NULL,
          detail TEXT NOT NULL,
          is_short_video INTEGER NOT NULL DEFAULT 0,
          file_size INTEGER,
          modified_ms INTEGER,
          created_at TEXT NOT NULL DEFAULT CURRENT_TIMESTAMP,
          updated_at TEXT NOT NULL DEFAULT CURRENT_TIMESTAMP
        );
        "#);
    assert(CREATE_TABLES@.len() == 2894);
    reveal_strlit("\n          id INTEGER PRIMARY KEY");
    assert(text.subrange(0, 33) =~= "\n          id INTEGER PRIMARY KEY"@);
    assert(!"\n          id INTEGER PRIMARY KEY"@.contains(','));
    assert(parts.take(1) =~= seq![parts[0]]);
    assert(text.take(33) =~= text.subrange(0, 33));
    assert(join(parts.take(1), comma) == text.take(33));
    reveal_strlit("\n          started_at_ms INTEGER NOT NULL");
    assert(text.subrange(34, 75) =~= "\n          started_at_ms INTEGER NOT NULL"@);
    assert(!"\n          started_at_ms INTEGER NOT NULL"@.contains(','));
    assert(text[33] == ',');
    lemma_join_step(text, parts, 1, 33, 75);
    reveal_strlit("\n          completed_at_ms INTEGER NOT NULL");
    assert(text.subrange(76, 119) =~= "\n          completed_at_ms INTEGER NOT NULL"@);
    assert(!"\n          completed_at_ms INTEGER NOT NULL"@.contains(','));
    assert(text[75] == ',');
    lemma_join_step(text, parts, 2, 75, 119);
    reveal_strlit("\n          duration_ms INTEGER NOT NULL");
    assert(text.subrange(120, 159) =~= "\n          duration_ms INTEGER NOT NULL"@);
    assert(!"\n          duration_ms INTEGER NOT NULL"@.contains(','));
    assert(text[119] == ',');
    lemma_join_step(text, parts, 3, 119, 159);
    reveal_strlit("\n          scanned_files INTEGER NOT NULL");
    assert(text.subrange(160, 201) =~= "\n          scanned_files INTEGER NOT NULL"@);
    assert(!"\n          scanned_files INTEGER NOT NULL"@.contains(','));
    assert(text[159] == ',');
    lemma_join_step(text, parts, 4, 159, 201);
    reveal_strlit("\n          imported_files INTEGER NOT NULL");
    assert(text.subrange(202, 244) =~= "\n          imported_files INTEGER NOT NULL"@);
    assert(!"\n          imported_files INTEGER NOT NULL"@.contains(','));
    assert(text[201] == ',');
    lemma_join_step(text, parts, 5, 201, 244);
    reveal_strlit("\n          skipped_files INTEGER NOT NULL");
    assert(text.subrange(245, 286) =~= "\n          skipped_files INTEGER NOT NULL"@);
    assert(!"\n          skipped_files INTEGER NOT NULL"@.contains(','));
    assert(text[244] == ',');
    lemma_join_step(text, parts, 6, 244, 286);
    reveal_strlit("\n          skipped_short_files INTEGER NOT NULL");
    assert(text.subrange(287, 334) =~= "\n          skipped_short_files INTEGER NOT NULL"@);
    assert(!"\n          skipped_short_files INTEGER NOT NULL"@.contains(','));
    assert(text[286] == ',');
    lemma_join_step(text, parts, 7, 286, 334);
    reveal_strlit("\n          recorded_directories INTEGER NOT NULL");
    assert(text.subrange(335, 383) =~= "\n          recorded_directories INTEGER NOT NULL"@);
    assert(!"\n          recorded_directories INTEGER NOT NULL"@.contains(','));
    assert(text[334] == ',');
    lemma_join_step(text, parts, 8, 334, 383);
    reveal_strlit("\n          ffprobe_missing INTEGER NOT NULL DEFAULT 0");
    assert(text.subrange(384, 437) =~= "\n          ffprobe_missing INTEGER NOT NULL DEFAULT 0"@);
    assert(!"\n          ffprobe_missing INTEGER NOT NULL DEFAULT 0"@.contains(','));
    assert(text[383] == ',');
    lemma_join_step(text, parts, 9, 383, 437);
    reveal_strlit("\n          status TEXT NOT NULL DEFAULT 'completed'");
    assert(text.subrange(438, 489) =~= "\n          status TEXT NOT NULL DEFAULT 'completed'"@);
    assert(!"\n          status TEXT NOT NULL DEFAULT 'completed'"@.contains(','));
    assert(text[437] == ',');
    lemma_join_step(text, parts, 10, 437, 489);
    reveal_strlit("\n          error_message TEXT");
    assert(text.subrange(490, 519) =~= "\n          error_message TEXT"@);
    assert(!"\n          error_message TEXT"@.contains(','));
    assert(text[489] == ',');
    lemma_join_step(text, parts, 11, 489, 519);
    reveal_strlit("\n          failed_roots_json TEXT NOT NULL DEFAULT '[]'");
    assert(text.subrange(520, 575) =~= "\n          failed_roots_json TEXT NOT NULL DEFAULT '[]'"@);
    assert(!"\n          failed_roots_json TEXT NOT NULL DEFAULT '[]'"@.contains(','));
    assert(text[519] == ',');
    lemma_join_step(text, parts, 12, 519, 575);
    reveal_strlit("\n          paths_json TEXT NOT NULL DEFAULT '[]'");
    assert(text.subrange(576, 624) =~= "\n          paths_json TEXT NOT NULL DEFAULT '[]'"@);
    assert(!"\n          paths_json TEXT NOT NULL DEFAULT '[]'"@.contains(','));
    assert(text[575] == ',');
    lemma_join_step(text, parts, 13, 575, 624);
    reveal_strlit("\n          excluded_paths_json TEXT NOT NULL DEFAULT '[]'");
    assert(text.subrange(625, 682) =~= "\n          excluded_paths_json TEXT NOT NULL DEFAULT '[]'"@);
    assert(!"\n          excluded_paths_json TEXT NOT NULL DEFAULT '[]'"@.contains(','));
    assert(text[624] == ',');
    lemma_join_step(text, parts, 14, 624, 682);
    reveal_strlit("\n          created_at TEXT NOT NULL DEFAULT CURRENT_TIMESTAMP");
    assert(text.subrange(683, 744) =~= "\n          created_at TEXT NOT NULL DEFAULT CURRENT_TIMESTAMP"@);
    assert(!"\n          created_at TEXT NOT NULL DEFAULT CURRENT_TIMESTAMP"@.contains(','));
    assert(text[682] == ',');
    lemma_join_step(text, parts, 15, 682, 744);
    assert(parts.take(16) =~= parts);
    assert(text.take(744) =~= text);
    assert forall|i: int| 0 <= i < parts.len() implies !(#[trigger] parts[i]).contains(',') by {
        assert(0 <= i < 16);
    }
    joined_parts_are_found_again(parts, ',');
}

/// The table has its columns.
pub proof fn scans_have_a_table()
    ensures
        split_on(CREATE_TABLES@.subrange(1564, 2308), ',').len() == 16,
        split_on(CREATE_TABLES@.subrange(1564, 2308), ',')[0] == "\n          id INTEGER PRIMARY KEY"@,
        split_on(CREATE_TABLES@.subrange(1564, 2308), ',')[1] == "\n          started_at_ms INTEGER NOT NULL"@,
        split_on(CREATE_TABLES@.subrange(1564, 2308), ',')[2] == "\n          completed_at_ms INTEGER NOT NULL"@,
        split_on(CREATE_TABLES@.subrange(1564, 2308), ',')[3] == "\n          duration_ms INTEGER NOT NULL"@,
        split_on(CREATE_TABLES@.subrange(1564, 2308), ',')[4] == "\n          scanned_files INTEGER NOT NULL"@,
        split_on(CREATE_TABLES@.subrange(1564, 2308), ',')[5] == "\n          imported_files INTEGER NOT NULL"@,
        split_on(CREATE_TABLES@.subrange(1564, 2308), ',')[6] == "\n          skipped_files INTEGER NOT NULL"@,
        split_on(CREATE_TABLES@.subrange(1564, 2308), ',')[7] == "\n          skipped_short_files INTEGER NOT NULL"@,
        split_on(CREATE_TABLES@.subrange(1564, 2308), ',')[8] == "\n          recorded_directories INTEGER NOT NULL"@,
        split_on(CREATE_TABLES@.subrange(1564, 2308), ',')[9] == "\n          ffprobe_missing INTEGER NOT NULL DEFAULT 0"@,
        split_on(CREATE_TABLES@.subrange(1564, 2308), ',')[10] == "\n          status TEXT NOT NULL DEFAULT 'completed'"@,
        split_on(CREATE_TABLES@.subrange(1564, 2308), ',')[11] == "\n          error_message TEXT"@,
        split_on(CREATE_TABLES@.subrange(1564, 2308), ',')[12] == "\n          failed_roots_json TEXT NOT NULL DEFAULT '[]'"@,
        split_on(CREATE_TABLES@.subrange(1564, 2308), ',')[13] == "\n          paths_json TEXT NOT NULL DEFAULT '[]'"@,
        split_on(CREATE_TABLES@.subrange(1564, 2308), ',')[14] == "\n          excluded_paths_json TEXT NOT NULL DEFAULT '[]'"@,
        split_on(CREATE_TABLES@.subrange(1564, 2308), ',')[15] == "\n          created_at TEXT NOT NULL DEFAULT CURRENT_TIMESTAMP"@,
{
    lemma_scan_run_columns();
}

/// The columns of the table of files that were left out.
pub open spec fn scan_skip_columns() -> Seq<Seq<char>> {
    seq![
        "\n          id INTEGER PRIMARY KEY"@,
        "\n          scan_id INTEGER"@,
        "\n          path TEXT NOT NULL"@,
        "\n          file_name TEXT NOT NULL"@,
        "\n          root_path TEXT NOT NULL"@,
        "\n          root_key TEXT NOT NULL DEFAULT ''"@,
        "\n          reason TEXT NOT NULL"@,
        "\n          detail TEXT NOT NULL"@,
        "\n          is_short_video INTEGER NOT NULL DEFAULT 0"@,
        "\n          file_size INTEGER"@,
        "\n          modified_ms INTEGER"@,
        "\n          created_at TEXT NOT NULL DEFAULT CURRENT_TIMESTAMP"@,
        "\n          updated_at TEXT NOT NULL DEFAULT CURRENT_TIMESTAMP"@,
    ]
}

#[verifier::spinoff_prover]
#[verifier::rlimit(60)]
proof fn lemma_scan_skip_columns()
    ensures
        split_on(CREATE_TABLES@.subrange(2368, 2874), ',') == scan_skip_columns(),
{
    let text = CREATE_TABLES@.subrange(2368, 2874);
    let parts = scan_skip_columns();
    let comma = seq![','];
    reveal_strlit(r#"
        CREATE TABLE IF NOT EXISTS media_files (
          id INTEGER PRIMARY KEY,
          path TEXT NOT NULL UNIQUE,
          file_name TEXT NOT NULL,
          root_path TEXT NOT NULL,
          root_key TEXT NOT NULL DEFAULT '',
          directory_path TEXT NOT NULL DEFAULT '',
          media_kind TEXT NOT NULL DEFAULT '',
          file_size INTEGER NOT NULL,
          modified_ms INTEGER,
          duration_seconds REAL,
          container TEXT,
          video_codec TEXT,
          audio_codec TEXT,
          width INTEGER,
          height INTEGER,
          resolution TEXT,
          source TEXT,
          release_group TEXT,
          season_number INTEGER,
          episode_number INTEGER,
          title_guess TEXT NOT NULL,
          item_key TEXT NOT NULL,
          music_artist TEXT,
          music_album TEXT,
          music_title TEXT,
          music_artist_source TEXT,
          music_artist_key TEXT,
          series_title TEXT,
          series_source TEXT,
          series_key TEXT,
          family_key TEXT,
          created_at TEXT NOT NULL DEFAULT CURRENT_TIMESTAMP,
          updated_at TEXT NOT NULL DEFAULT CURRENT_TIMESTAMP
        );

        CREATE TABLE IF NOT EXISTS merge_rules (
          kind TEXT NOT NULL,
          source_key TEXT NOT NULL,
          target_name TEXT NOT NULL,
          created_at TEXT NOT NULL DEFAULT CURRENT_TIMESTAMP,
          updated_at TEXT NOT NULL DEFAULT CURRENT_TIMESTAMP,
          PRIMARY KEY (kind, source_key)
        );

        CREATE TABLE IF NOT EXISTS scan_runs (
          id INTEGER PRIMARY KEY,
          started_at_ms INTEGER NOT NULL,
          completed_at_ms INTEGER NOT NULL,
          duration_ms INTEGER NOT NULL,
          scanned_files INTEGER NOT NULL,
          imported_files INTEGER NOT NULL,
          skipped_files INTEGER NOT NULL,
          skipped_short_files INTEGER NOT NULL,
          recorded_directories INTEGER NOT NULL,
          ffprobe_missing INTEGER NOT NULL DEFAULT 0,
          status TEXT NOT NULL DEFAULT 'completed',
          error_message TEXT,
          failed_roots_json TEXT NOT NULL DEFAULT '[]',
          paths_json TEXT NOT NULL DEFAULT '[]',
          excluded_paths_json TEXT NOT NULL DEFAULT '[]',
          created_at TEXT NOT NULL DEFAULT CURRENT_TIMESTAMP
        );

        CREATE TABLE IF NOT EXISTS scan_skips (
          id INTEGER PRIMARY KEY,
          scan_id INTEGER,
          path TEXT NOT NULL,
          file_name TEXT NOT NULL,
          root_path TEXT NOT NULL,
          root_key TEXT NOT NULL DEFAULT '',
          reason TEXT NOT NULL,
          detail TEXT NOT NULL,
          is_short_video INTEGER NOT NULL DEFAULT 0,
          file_size INTEGER,
          modified_ms INTEGER,
          created_at TEXT NOT NULL DEFAULT CURRENT_TIMESTAMP,
          updated_at TEXT NOT NULL DEFAULT CURRENT_TIMESTAMP
        );
        "#);
    assert(CREATE_TABLES@.len() == 2894);
    reveal_strlit("\n          id INTEGER PRIMARY KEY");
    assert(text.subrange(0, 33) =~= "\n          id INTEGER PRIMARY KEY"@);
    assert(!"\n          id INTEGER PRIMARY KEY"@.contains(','));
    assert(parts.take(1) =~= seq![parts[0]]);
    assert(text.take(33) =~= text.subrange(0, 33));
    assert(join(parts.take(1), comma) == text.take(33));
    reveal_strlit("\n          scan_id INTEGER");
    assert(text.subrange(34, 60) =~= "\n          scan_id INTEGER"@);
    assert(!"\n          scan_id INTEGER"@.contains(','));
    assert(text[33] == ',');
    lemma_join_step(text, parts, 1, 33, 60);
    reveal_strlit("\n          path TEXT NOT NULL");
    assert(text.subrange(61, 90) =~= "\n          path TEXT NOT NULL"@);
    assert(!"\n          path TEXT NOT NULL"@.contains(','));
    assert(text[60] == ',');
    lemma_join_step(text, parts, 2, 60, 90);
    reveal_strlit("\n          file_name TEXT NOT NULL");
    assert(text.subrange(91, 125) =~= "\n          file_name TEXT NOT NULL"@);
    assert(!"\n          file_name TEXT NOT NULL"@.contains(','));
    assert(text[90] == ',');
    lemma_join_step(text, parts, 3, 90, 125);
    reveal_strlit("\n          root_path TEXT NOT NULL");
    assert(text.subrange(126, 160) =~= "\n          root_path TEXT NOT NULL"@);
    assert(!"\n          root_path TEXT NOT NULL"@.contains(','));
    assert(text[125] == ',');
    lemma_join_step(text, parts, 4, 125, 160);
    reveal_strlit("\n          root_key TEXT NOT NULL DEFAULT ''");
    assert(text.subrange(161, 205) =~= "\n          root_key TEXT NOT NULL DEFAULT ''"@);
    assert(!"\n          root_key TEXT NOT NULL DEFAULT ''"@.contains(','));
    assert(text[160] == ',');
    lemma_join_step(text, parts, 5, 160, 205);
    reveal_strlit("\n          reason TEXT NOT NULL");
    assert(text.subrange(206, 237) =~= "\n          reason TEXT NOT NULL"@);
    assert(!"\n          reason TEXT NOT NULL"@.contains(','));
    assert(text[205] == ',');
    lemma_join_step(text, parts, 6, 205, 237);
    reveal_strlit("\n          detail TEXT NOT NULL");
    assert(text.subrange(238, 269) =~= "\n          detail TEXT NOT NULL"@);
    assert(!"\n          detail TEXT NOT NULL"@.contains(','));
    assert(text[237] == ',');
    lemma_join_step(text, parts, 7, 237, 269);
    reveal_strlit("\n          is_short_video INTEGER NOT NULL DEFAULT 0");
    assert(text.subrange(270, 322) =~= "\n          is_short_video INTEGER NOT NULL DEFAULT 0"@);
    assert(!"\n          is_short_video INTEGER NOT NULL DEFAULT 0"@.contains(','));
    assert(text[269] == ',');
    lemma_join_step(text, parts, 8, 269, 322);
    reveal_strlit("\n          file_size INTEGER");
    assert(text.subrange(323, 351) =~= "\n          file_size INTEGER"@);
    assert(!"\n          file_size INTEGER"@.contains(','));
    assert(text[322] == ',');
    lemma_join_step(text, parts, 9, 322, 351);
    reveal_strlit("\n          modified_ms INTEGER");
    assert(text.subrange(352, 382) =~= "\n          modified_ms INTEGER"@);
    assert(!"\n          modified_ms INTEGER"@.contains(','));
    assert(text[351] == ',');
    lemma_join_step(text, parts, 10, 351, 382);
    reveal_strlit("\n          created_at TEXT NOT NULL DEFAULT CURRENT_TIMESTAMP");
    assert(text.subrange(383, 444) =~= "\n          created_at TEXT NOT NULL DEFAULT CURRENT_TIMESTAMP"@);
    assert(!"\n          created_at TEXT NOT NULL DEFAULT CURRENT_TIMESTAMP"@.contains(','));
    assert(text[382] == ',');
    lemma_join_step(text, parts, 11, 382, 444);
    reveal_strlit("\n          updated_at TEXT NOT NULL DEFAULT CURRENT_TIMESTAMP");
    assert(text.subrange(445, 506) =~= "\n          updated_at TEXT NOT NULL DEFAULT CURRENT_TIMESTAMP"@);
    assert(!"\n          updated_at TEXT NOT NULL DEFAULT CURRENT_TIMESTAMP"@.contains(','));
    assert(text[444] == ',');
    lemma_join_step(text, parts, 12, 444, 506);
    assert(parts.take(13) =~= parts);
    assert(text.take(506) =~= text);
    assert forall|i: int| 0 <= i < parts.len() implies !(#[trigger] parts[i]).contains(',') by {
        assert(0 <= i < 13);
    }
    joined_parts_are_found_again(parts, ',');
}

/// The table has its columns.
pub proof fn skips_have_a_table()
    ensures
        split_on(CREATE_TABLES@.subrange(2368, 2874), ',').len() == 13,
        split_on(CREATE_TABLES@.subrange(2368, 2874), ',')[0] == "\n          id INTEGER PRIMARY KEY"@,
        split_on(CREATE_TABLES@.subrange(2368, 2874), ',')[1] == "\n          scan_id INTEGER"@,
        split_on(CREATE_TABLES@.subrange(2368, 2874), ',')[2] == "\n          path TEXT NOT NULL"@,
        split_on(CREATE_TABLES@.subrange(2368, 2874), ',')[3] == "\n          file_name TEXT NOT NULL"@,
        split_on(CREATE_TABLES@.subrange(2368, 2874), ',')[4] == "\n          root_path TEXT NOT NULL"@,
        split_on(CREATE_TABLES@.subrange(2368, 2874), ',')[5] == "\n          root_key TEXT NOT NULL DEFAULT ''"@,
        split_on(CREATE_TABLES@.subrange(2368, 2874), ',')[6] == "\n          reason TEXT NOT NULL"@,
        split_on(CREATE_TABLES@.subrange(2368, 2874), ',')[7] == "\n          detail TEXT NOT NULL"@,
        split_on(CREATE_TABLES@.subrange(2368, 2874), ',')[8] == "\n          is_short_video INTEGER NOT NULL DEFAULT 0"@,
        split_on(CREATE_TABLES@.subrange(2368, 2874), ',')[9] == "\n          file_size INTEGER"@,
        split_on(CREATE_TABLES@.subrange(2368, 2874), ',')[10] == "\n          modified_ms INTEGER"@,
        split_on(CREATE_TABLES@.subrange(2368, 2874), ',')[11] == "\n          created_at TEXT NOT NULL DEFAULT CURRENT_TIMESTAMP"@,
        split_on(CREATE_TABLES@.subrange(2368, 2874), ',')[12] == "\n          updated_at TEXT NOT NULL DEFAULT CURRENT_TIMESTAMP"@,
{
    lemma_scan_skip_columns();
}

/// The columns that the migration of left-out files fills.
pub open spec fn migrated_columns() -> Seq<Seq<char>> {
    seq![
        "\n          id"@,
        " scan_id"@,
        " path"@,
        " file_name"@,
        " root_path"@,
        " root_key"@,
        " reason"@,
        " detail"@,
        "\n          is_short_video"@,
        " file_size"@,
        " modified_ms"@,
        " created_at"@,
        " updated_at"@,
    ]
}

#[verifier::spinoff_prover]
#[verifier::rlimit(60)]
proof fn lemma_migrated_columns()
    ensures
        split_on(MIGRATE_SCAN_SKIPS@.subrange(669, 819), ',') == migrated_columns(),
{
    let text = MIGRATE_SCAN_SKIPS@.subrange(669, 819);
    let parts = migrated_columns();
    let comma = seq![','];
    reveal_strlit(r#"
        BEGIN IMMEDIATE;
        ALTER TABLE scan_skips RENAME TO scan_skips_legacy;
        CREATE TABLE scan_skips (
          id INTEGER PRIMARY KEY,
          scan_id INTEGER,
          path TEXT NOT NULL,
          file_name TEXT NOT NULL,
          root_path TEXT NOT NULL,
          root_key TEXT NOT NULL DEFAULT '',
          reason TEXT NOT NULL,
          detail TEXT NOT NULL,
          is_short_video INTEGER NOT NULL DEFAULT 0,
          file_size INTEGER,
          modified_ms INTEGER,
          created_at TEXT NOT NULL DEFAULT CURRENT_TIMESTAMP,
          updated_at TEXT NOT NULL DEFAULT CURRENT_TIMESTAMP
        );
        INSERT INTO scan_skips (
          id, scan_id, path, file_name, root_path, root_key, reason, detail,
          is_short_video, file_size, modified_ms, created_at, updated_at
        )
        SELECT
          id, NULL, path, file_name, root_path, '', reason, detail,
          is_short_video, file_size, modified_ms, created_at, updated_at
        FROM scan_skips_legacy;
        DROP TABLE scan_skips_legacy;
        COMMIT;
        "#);
    assert(MIGRATE_SCAN_SKIPS@.len() == 1080);
    reveal_strlit("\n          id");
    assert(text.subrange(0, 13) =~= "\n          id"@);
    assert(!"\n          id"@.contains(','));
    assert(parts.take(1) =~= seq![parts[0]]);
    assert(text.take(13) =~= text.subrange(0, 13));
    assert(join(parts.take(1), comma) == text.take(13));
    reveal_strlit(" scan_id");
    assert(text.subrange(14, 22) =~= " scan_id"@);
    assert(!" scan_id"@.contains(','));
    assert(text[13] == ',');
    lemma_join_step(text, parts, 1, 13, 22);
    reveal_strlit(" path");
    assert(text.subrange(23, 28) =~= " path"@);
    assert(!" path"@.contains(','));
    assert(text[22] == ',');
    lemma_join_step(text, parts, 2, 22, 28);
    reveal_strlit(" file_name");
    assert(text.subrange(29, 39) =~= " file_name"@);
    assert(!" file_name"@.contains(','));
    assert(text[28] == ',');
    lemma_join_step(text, parts, 3, 28, 39);
    reveal_strlit(" root_path");
    assert(text.subrange(40, 50) =~= " root_path"@);
    assert(!" root_path"@.contains(','));
    assert(text[39] == ',');
    lemma_join_step(text, parts, 4, 39, 50);
    reveal_strlit(" root_key");
    assert(text.subrange(51, 60) =~= " root_key"@);
    assert(!" root_key"@.contains(','));
    assert(text[50] == ',');
    lemma_join_step(text, parts, 5, 50, 60);
    reveal_strlit(" reason");
    assert(text.subrange(61, 68) =~= " reason"@);
    assert(!" reason"@.contains(','));
    assert(text[60] == ',');
    lemma_join_step(text, parts, 6, 60, 68);
    reveal_strlit(" detail");
    assert(text.subrange(69, 76) =~= " detail"@);
    assert(!" detail"@.contains(','));
    assert(text[68] == ',');
    lemma_join_step(text, parts, 7, 68, 76);
    reveal_strlit("\n          is_short_video");
    assert(text.subrange(77, 102) =~= "\n          is_short_video"@);
    assert(!"\n          is_short_video"@.contains(','));
    assert(text[76] == ',');
    lemma_join_step(text, parts, 8, 76, 102);
    reveal_strlit(" file_size");
    assert(text.subrange(103, 113) =~= " file_size"@);
    assert(!" file_size"@.contains(','));
    assert(text[102] == ',');
    lemma_join_step(text, parts, 9, 102, 113);
    reveal_strlit(" modified_ms");
    assert(text.subrange(114, 126) =~= " modified_ms"@);
    assert(!" modified_ms"@.contains(','));
    assert(text[113] == ',');
    lemma_join_step(text, parts, 10, 113, 126);
    reveal_strlit(" created_at");
    assert(text.subrange(127, 138) =~= " created_at"@);
    assert(!" created_at"@.contains(','));
    assert(text[126] == ',');
    lemma_join_step(text, parts, 11, 126, 138);
    reveal_strlit(" updated_at");
    assert(text.subrange(139, 150) =~= " updated_at"@);
    assert(!" updated_at"@.contains(','));
    assert(text[138] == ',');
    lemma_join_step(text, parts, 12, 138, 150);
    assert(parts.take(13) =~= parts);
    assert(text.take(150) =~= text);
    assert forall|i: int| 0 <= i < parts.len() implies !(#[trigger] parts[i]).contains(',') by {
        assert(0 <= i < 13);
    }
    joined_parts_are_found_again(parts, ',');
}

/// What the migration of left-out files fills them with.
pub open spec fn migrated_values() -> Seq<Seq<char>> {
    seq![
        "\n          id"@,
        " NULL"@,
        " path"@,
        " file_name"@,
        " root_path"@,
        " ''"@,
        " reason"@,
        " detail"@,
        "\n          is_short_video"@,
        " file_size"@,
        " modified_ms"@,
        " created_at"@,
        " updated_at"@,
    ]
}

#[verifier::spinoff_prover]
#[verifier::rlimit(60)]
proof fn lemma_migrated_values()
    ensures
        split_on(MIGRATE_SCAN_SKIPS@.subrange(844, 985), ',') == migrated_values(),
{
    let text = MIGRATE_SCAN_SKIPS@.subrange(844, 985);
    let parts = migrated_values();
    let comma = seq![','];
    reveal_strlit(r#"
        BEGIN IMMEDIATE;
        ALTER TABLE scan_skips RENAME TO scan_skips_legacy;
        CREATE TABLE scan_skips (
          id INTEGER PRIMARY KEY,
          scan_id INTEGER,
          path TEXT NOT NULL,
          file_name TEXT NOT NULL,
          root_path TEXT NOT NULL,
          root_key TEXT NOT NULL DEFAULT '',
          reason TEXT NOT NULL,
          detail TEXT NOT NULL,
          is_short_video INTEGER NOT NULL DEFAULT 0,
          file_size INTEGER,
          modified_ms INTEGER,
          created_at TEXT NOT NULL DEFAULT CURRENT_TIMESTAMP,
          updated_at TEXT NOT NULL DEFAULT CURRENT_TIMESTAMP
        );
        INSERT INTO scan_skips (
          id, scan_id, path, file_name, root_path, root_key, reason, detail,
          is_short_video, file_size, modified_ms, created_at, updated_at
        )
        SELECT
          id, NULL, path, file_name, root_path, '', reason, detail,
          is_short_video, file_size, modified_ms, created_at, updated_at
        FROM scan_skips_legacy;
        DROP TABLE scan_skips_legacy;
        COMMIT;
        "#);
    assert(MIGRATE_SCAN_SKIPS@.len() == 1080);
    reveal_strlit("\n          id");
    assert(text.subrange(0, 13) =~= "\n          id"@);
    assert(!"\n          id"@.contains(','));
    assert(parts.take(1) =~= seq![parts[0]]);
    assert(text.take(13) =~= text.subrange(0, 13));
    assert(join(parts.take(1), comma) == text.take(13));
    reveal_strlit(" NULL");
    assert(text.subrange(14, 19) =~= " NULL"@);
    assert(!" NULL"@.contains(','));
    assert(text[13] == ',');
    lemma_join_step(text, parts, 1, 13, 19);
    reveal_strlit(" path");
    assert(text.subrange(20, 25) =~= " path"@);
    assert(!" path"@.contains(','));
    assert(text[19] == ',');
    lemma_join_step(text, parts, 2, 19, 25);
    reveal_strlit(" file_name");
    assert(text.subrange(26, 36) =~= " file_name"@);
    assert(!" file_name"@.contains(','));
    assert(text[25] == ',');
    lemma_join_step(text, parts, 3, 25, 36);
    reveal_strlit(" root_path");
    assert(text.subrange(37, 47) =~= " root_path"@);
    assert(!" root_path"@.contains(','));
    assert(text[36] == ',');
    lemma_join_step(text, parts, 4, 36, 47);
    reveal_strlit(" ''");
    assert(text.subrange(48, 51) =~= " ''"@);
    assert(!" ''"@.contains(','));
    assert(text[47] == ',');
    lemma_join_step(text, parts, 5, 47, 51);
    reveal_strlit(" reason");
    assert(text.subrange(52, 59) =~= " reason"@);
    assert(!" reason"@.contains(','));
    assert(text[51] == ',');
    lemma_join_step(text, parts, 6, 51, 59);
    reveal_strlit(" detail");
    assert(text.subrange(60, 67) =~= " detail"@);
    assert(!" detail"@.contains(','));
    assert(text[59] == ',');
    lemma_join_step(text, parts, 7, 59, 67);
    reveal_strlit("\n          is_short_video");
    assert(text.subrange(68, 93) =~= "\n          is_short_video"@);
    assert(!"\n          is_short_video"@.contains(','));
    assert(text[67] == ',');
    lemma_join_step(text, parts, 8, 67, 93);
    reveal_strlit(" file_size");
    assert(text.subrange(94, 104) =~= " file_size"@);
    assert(!" file_size"@.contains(','));
    assert(text[93] == ',');
    lemma_join_step(text, parts, 9, 93, 104);
    reveal_strlit(" modified_ms");
    assert(text.subrange(105, 117) =~= " modified_ms"@);
    assert(!" modified_ms"@.contains(','));
    assert(text[104] == ',');
    lemma_join_step(text, parts, 10, 104, 117);
    reveal_strlit(" created_at");
    assert(text.subrange(118, 129) =~= " created_at"@);
    assert(!" created_at"@.contains(','));
    assert(text[117] == ',');
    lemma_join_step(text, parts, 11, 117, 129);
    reveal_strlit(" updated_at");
    assert(text.subrange(130, 141) =~= " updated_at"@);
    assert(!" updated_at"@.contains(','));
    assert(text[129] == ',');
    lemma_join_step(text, parts, 12, 129, 141);
    assert(parts.take(13) =~= parts);
    assert(text.take(141) =~= text);
    assert forall|i: int| 0 <= i < parts.len() implies !(#[trigger] parts[i]).contains(',') by {
        assert(0 <= i < 13);
    }
    joined_parts_are_found_again(parts, ',');
}

/// The migration copies each column to the column of its name; the number of
/// the scan is not known and the key of the root is empty.
pub proof fn migrations_keep_the_columns()
    ensures
        split_on(MIGRATE_SCAN_SKIPS@.subrange(669, 819), ',')[0] == "\n          id"@,
        split_on(MIGRATE_SCAN_SKIPS@.subrange(844, 985), ',')[0] == "\n          id"@,
        split_on(MIGRATE_SCAN_SKIPS@.subrange(669, 819), ',')[1] == " scan_id"@,
        split_on(MIGRATE_SCAN_SKIPS@.subrange(844, 985), ',')[1] == " NULL"@,
        split_on(MIGRATE_SCAN_SKIPS@.subrange(669, 819), ',')[2] == " path"@,
        split_on(MIGRATE_SCAN_SKIPS@.subrange(844, 985), ',')[2] == " path"@,
        split_on(MIGRATE_SCAN_SKIPS@.subrange(669, 819), ',')[3] == " file_name"@,
        split_on(MIGRATE_SCAN_SKIPS@.subrange(844, 985), ',')[3] == " file_name"@,
        split_on(MIGRATE_SCAN_SKIPS@.subrange(669, 819), ',')[4] == " root_path"@,
        split_on(MIGRATE_SCAN_SKIPS@.subrange(844, 985), ',')[4] == " root_path"@,
        split_on(MIGRATE_SCAN_SKIPS@.subrange(669, 819), ',')[5] == " root_key"@,
        split_on(MIGRATE_SCAN_SKIPS@.subrange(844, 985), ',')[5] == " ''"@,
        split_on(MIGRATE_SCAN_SKIPS@.subrange(669, 819), ',')[6] == " reason"@,
        split_on(MIGRATE_SCAN_SKIPS@.subrange(844, 985), ',')[6] == " reason"@,
        split_on(MIGRATE_SCAN_SKIPS@.subrange(669, 819), ',')[7] == " detail"@,
        split_on(MIGRATE_SCAN_SKIPS@.subrange(844, 985), ',')[7] == " detail"@,
        split_on(MIGRATE_SCAN_SKIPS@.subrange(669, 819), ',')[8] == "\n          is_short_video"@,
        split_on(MIGRATE_SCAN_SKIPS@.subrange(844, 985), ',')[8] == "\n          is_short_video"@,
        split_on(MIGRATE_SCAN_SKIPS@.subrange(669, 819), ',')[9] == " file_size"@,
        split_on(MIGRATE_SCAN_SKIPS@.subrange(844, 985), ',')[9] == " file_size"@,
        split_on(MIGRATE_SCAN_SKIPS@.subrange(669, 819), ',')[10] == " modified_ms"@,
        split_on(MIGRATE_SCAN_SKIPS@.subrange(844, 985), ',')[10] == " modified_ms"@,
        split_on(MIGRATE_SCAN_SKIPS@.subrange(669, 819), ',')[11] == " created_at"@,
        split_on(MIGRATE_SCAN_SKIPS@.subrange(844, 985), ',')[11] == " created_at"@,
        split_on(MIGRATE_SCAN_SKIPS@.subrange(669, 819), ',')[12] == " updated_at"@,
        split_on(MIGRATE_SCAN_SKIPS@.subrange(844, 985), ',')[12] == " updated_at"@,
{
    lemma_migrated_columns();
    lemma_migrated_values();
}

} // verus!
