//! The tables of files and of left-out files: what the statements that store a
//! scanned root do to them, and which rows a page reads in which order.

use vstd::prelude::*;

use crate::analysis::{AnalyzedFile, FileMetadata};
use crate::order::{
    text_order_is_antisymmetric, text_order_is_total, text_order_is_transitive,
};
use crate::query::{
    first_pages, page_limit, page_of, pages_hold_every_row_once, same_list, ResourceQuery,
};
use crate::scan::PendingSkip;
use crate::statements::{StatementModel, ValueModel};
use crate::store::{
    file_statement, file_values, root_statements, skip_statements, DELETE_ROOT_FILES, INSERT_SKIP,
    UPSERT_FILE,
};
use crate::text::{ascii_lower, text_le, texts};

verus! {

// ---------------------------------------------------------------------------
// Rows
// ---------------------------------------------------------------------------

/// A row: its values, in the order in which they are stored.
pub type Row = Seq<ValueModel>;

/// The stored files, by their paths.
pub type FileTable = Map<Seq<char>, Row>;

/// The columns of a stored file that rows are chosen and sorted by, each with
/// its place in [`file_values`].
pub const PATH_COLUMN: usize = 0;

pub const FILE_NAME_COLUMN: usize = 1;

pub const ROOT_KEY_COLUMN: usize = 3;

pub const DIRECTORY_COLUMN: usize = 4;

pub const MEDIA_KIND_COLUMN: usize = 5;

pub const SEASON_COLUMN: usize = 17;

pub const EPISODE_COLUMN: usize = 18;

pub const ARTIST_KEY_COLUMN: usize = 25;

pub const SERIES_KEY_COLUMN: usize = 28;

/// The files that are stored, and the rows on files that were left out.
pub struct StoreModel {
    pub files: FileTable,
    pub skips: Seq<Row>,
}

// ---------------------------------------------------------------------------
// Storing a root
// ---------------------------------------------------------------------------

/// A row belongs to a root.
pub open spec fn is_of_root(row: Row, root_key: ValueModel) -> bool {
    row[ROOT_KEY_COLUMN as int] == root_key
}

/// What is stored after one of the statements that store a root: the rows of a
/// root are gone, or the row of a path is there with its values, or a row on a
/// file that was left out has come.
pub open spec fn store_after(store: StoreModel, change: StatementModel) -> StoreModel {
    let values = change.values;
    if change.sql == DELETE_ROOT_FILES@ && values.len() == 1 {
        StoreModel {
            files: store.files.restrict(
                store.files.dom().filter(
                    |path: Seq<char>| !is_of_root(store.files[path], values[0]),
                ),
            ),
            ..store
        }
    } else if change.sql == UPSERT_FILE@ && values.len() == 30 && values[0] is Text {
        StoreModel { files: store.files.insert(values[0]->Text_0, values), ..store }
    } else if change.sql == INSERT_SKIP@ && values.len() == 10 {
        StoreModel { skips: store.skips.push(values), ..store }
    } else {
        store
    }
}

/// What is stored after statements.
pub open spec fn store_after_all(store: StoreModel, changes: Seq<StatementModel>) -> StoreModel
    decreases changes.len(),
{
    if changes.len() == 0 {
        store
    } else {
        store_after(store_after_all(store, changes.drop_last()), changes.last())
    }
}

/// The last of the files with a path, or -1.
pub open spec fn last_with_path(files: Seq<AnalyzedFile>, path: Seq<char>) -> int
    decreases files.len(),
{
    if files.len() == 0 {
        -1
    } else if files.last().path@ == path {
        files.len() - 1
    } else {
        last_with_path(files.drop_last(), path)
    }
}

proof fn lemma_last_with_path(files: Seq<AnalyzedFile>, path: Seq<char>)
    ensures
        -1 <= last_with_path(files, path) < files.len(),
        last_with_path(files, path) >= 0 ==> files[last_with_path(files, path)].path@ == path,
        last_with_path(files, path) >= 0 <==> exists|i: int|
            0 <= i < files.len() && (#[trigger] files[i]).path@ == path,
    decreases files.len(),
{
    if files.len() > 0 {
        let before = files.drop_last();
        lemma_last_with_path(before, path);
        if files.last().path@ == path {
            assert(files[files.len() - 1].path@ == path);
        } else {
            if last_with_path(before, path) >= 0 {
                assert(files[last_with_path(before, path)].path@ == path);
            }
            if exists|i: int| 0 <= i < files.len() && (#[trigger] files[i]).path@ == path {
                let i = choose|i: int| 0 <= i < files.len() && (#[trigger] files[i]).path@ == path;
                assert(before[i].path@ == path);
            }
        }
    }
}

proof fn lemma_after_all_add(
    store: StoreModel,
    first: Seq<StatementModel>,
    second: Seq<StatementModel>,
)
    ensures
        store_after_all(store, first + second) == store_after_all(
            store_after_all(store, first),
            second,
        ),
    decreases second.len(),
{
    if second.len() == 0 {
        assert(first + second =~= first);
    } else {
        lemma_after_all_add(store, first, second.drop_last());
        assert((first + second).drop_last() =~= first + second.drop_last());
        assert((first + second).last() == second.last());
    }
}

proof fn lemma_store_files(store: StoreModel, files: Seq<AnalyzedFile>)
    ensures
        ({
            let after = store_after_all(store, files.map_values(|f: AnalyzedFile| file_statement(f)));
            &&& after.skips == store.skips
            &&& forall|path: Seq<char>| #[trigger]
                after.files.contains_key(path) <==> last_with_path(files, path) >= 0
                    || store.files.contains_key(path)
            &&& forall|path: Seq<char>| #[trigger]
                after.files.contains_key(path) ==> after.files[path] == (if last_with_path(
                    files,
                    path,
                ) >= 0 {
                    file_values(files[last_with_path(files, path)])
                } else {
                    store.files[path]
                })
        }),
    decreases files.len(),
{
    let changes = files.map_values(|f: AnalyzedFile| file_statement(f));
    if files.len() > 0 {
        let rest = files.drop_last();
        let last = files.last();
        lemma_store_files(store, rest);
        assert(changes.drop_last() =~= rest.map_values(|f: AnalyzedFile| file_statement(f)));
        let before = store_after_all(store, changes.drop_last());
        let after = store_after_all(store, changes);
        assert(changes.last() == file_statement(last));
        assert(after == (StoreModel {
            files: before.files.insert(last.path@, file_values(last)),
            ..before
        }));
        assert forall|path: Seq<char>| #[trigger] after.files.contains_key(path) implies after.files[path]
            == (if last_with_path(files, path) >= 0 {
            file_values(files[last_with_path(files, path)])
        } else {
            store.files[path]
        }) by {
            lemma_last_with_path(rest, path);
            if path != last.path@ {
                assert(before.files.contains_key(path));
            }
        }
        assert forall|path: Seq<char>| #[trigger]
            after.files.contains_key(path) <==> last_with_path(files, path) >= 0
                || store.files.contains_key(path) by {
            assert(before.files.contains_key(path) <==> last_with_path(rest, path) >= 0
                || store.files.contains_key(path));
        }
    }
}

proof fn lemma_store_skips(
    store: StoreModel,
    scan_id: i64,
    skips: Seq<PendingSkip>,
    metadata: Seq<Option<FileMetadata>>,
    windows: bool,
)
    ensures
        ({
            let changes = skip_statements(scan_id, skips, metadata, windows);
            let after = store_after_all(store, changes);
            &&& after.files == store.files
            &&& after.skips == store.skips + changes.map_values(|c: StatementModel| c.values)
        }),
    decreases skips.len(),
{
    let changes = skip_statements(scan_id, skips, metadata, windows);
    let rows = changes.map_values(|c: StatementModel| c.values);
    if skips.len() == 0 {
        assert(store.skips + rows =~= store.skips);
    } else {
        let rest = skips.drop_last();
        lemma_store_skips(store, scan_id, rest, metadata, windows);
        assert(changes.drop_last() =~= skip_statements(scan_id, rest, metadata, windows));
        let earlier = changes.drop_last().map_values(|c: StatementModel| c.values);
        assert((store.skips + earlier).push(changes.last().values) =~= store.skips + rows);
    }
}

/// Storing a scanned root replaces the rows of this root. Afterwards the stored
/// files are those of the scan and those of other roots, and the files of the
/// scan have the values that the scan found, the last one where a path came
/// twice. All others are as they were. Rows on files that were left out come
/// behind those that were there, one for each, under the number of the scan.
pub proof fn storing_a_root_replaces_its_rows(
    store: StoreModel,
    scan_id: i64,
    root_key: Seq<char>,
    files: Seq<AnalyzedFile>,
    skips: Seq<PendingSkip>,
    metadata: Seq<Option<FileMetadata>>,
    windows: bool,
)
    ensures
        ({
            let after = store_after_all(
                store,
                root_statements(scan_id, root_key, files, skips, metadata, windows),
            );
            &&& forall|path: Seq<char>| #[trigger]
                after.files.contains_key(path) <==> last_with_path(files, path) >= 0 || (
                store.files.contains_key(path) && !is_of_root(
                    store.files[path],
                    ValueModel::Text(root_key),
                ))
            &&& forall|path: Seq<char>| #[trigger]
                after.files.contains_key(path) ==> after.files[path] == (if last_with_path(
                    files,
                    path,
                ) >= 0 {
                    file_values(files[last_with_path(files, path)])
                } else {
                    store.files[path]
                })
            &&& after.skips.len() == store.skips.len() + skips.len()
            &&& after.skips.take(store.skips.len() as int) == store.skips
            &&& forall|i: int|
                store.skips.len() <= i < after.skips.len() ==> (#[trigger] after.skips[i])
                    == skip_statements(scan_id, skips, metadata, windows)[i
                    - store.skips.len()].values && after.skips[i][0] == ValueModel::Integer(scan_id)
        }),
{
    let removal = seq![
        StatementModel { sql: DELETE_ROOT_FILES@, values: seq![ValueModel::Text(root_key)] },
    ];
    let stored = files.map_values(|f: AnalyzedFile| file_statement(f));
    let left_out = skip_statements(scan_id, skips, metadata, windows);
    lemma_after_all_add(store, removal + stored, left_out);
    lemma_after_all_add(store, removal, stored);
    let emptied = store_after_all(store, removal);
    assert(removal.drop_last() =~= Seq::empty());
    assert(store_after_all(store, removal.drop_last()) == store);
    assert(emptied == store_after(store, removal.last()));
    assert forall|path: Seq<char>| #[trigger] emptied.files.contains_key(path) <==> (
    store.files.contains_key(path) && !is_of_root(store.files[path], ValueModel::Text(root_key))) by {
    }
    lemma_store_files(emptied, files);
    let filled = store_after_all(emptied, stored);
    lemma_store_skips(filled, scan_id, skips, metadata, windows);
    let after = store_after_all(filled, left_out);
    assert(after.skips.take(store.skips.len() as int) =~= store.skips);
    assert forall|path: Seq<char>| #[trigger] after.files.contains_key(path) implies after.files[path]
        == (if last_with_path(files, path) >= 0 {
        file_values(files[last_with_path(files, path)])
    } else {
        store.files[path]
    }) by {
        assert(filled.files.contains_key(path));
        if last_with_path(files, path) < 0 {
            assert(emptied.files.contains_key(path));
        }
    }
    assert forall|path: Seq<char>| #[trigger]
        after.files.contains_key(path) <==> last_with_path(files, path) >= 0 || (
        store.files.contains_key(path) && !is_of_root(
            store.files[path],
            ValueModel::Text(root_key),
        )) by {
        assert(filled.files.contains_key(path) <==> last_with_path(files, path) >= 0
            || emptied.files.contains_key(path));
        assert(emptied.files.contains_key(path) <==> (store.files.contains_key(path) && !is_of_root(
            store.files[path],
            ValueModel::Text(root_key),
        )));
    }
}

/// The rows of a root after it was stored are exactly those of its files, and
/// no row of another root has changed whose path is not among them.
pub proof fn a_stored_root_has_its_files(
    store: StoreModel,
    scan_id: i64,
    root_key: Seq<char>,
    files: Seq<AnalyzedFile>,
    skips: Seq<PendingSkip>,
    metadata: Seq<Option<FileMetadata>>,
    windows: bool,
    path: Seq<char>,
)
    requires
        forall|i: int| 0 <= i < files.len() ==> (#[trigger] files[i]).root_key@ == root_key,
    ensures
        ({
            let after = store_after_all(
                store,
                root_statements(scan_id, root_key, files, skips, metadata, windows),
            );
            let is_found = exists|i: int| 0 <= i < files.len() && (#[trigger] files[i]).path@ == path;
            &&& after.files.contains_key(path) && is_of_root(
                after.files[path],
                ValueModel::Text(root_key),
            ) <==> is_found
            &&& !is_found && store.files.contains_key(path) && !is_of_root(
                store.files[path],
                ValueModel::Text(root_key),
            ) ==> after.files.contains_key(path) && after.files[path] == store.files[path]
        }),
{
    storing_a_root_replaces_its_rows(store, scan_id, root_key, files, skips, metadata, windows);
    lemma_last_with_path(files, path);
    let after = store_after_all(
        store,
        root_statements(scan_id, root_key, files, skips, metadata, windows),
    );
    assert(after.files.contains_key(path) <==> last_with_path(files, path) >= 0 || (
    store.files.contains_key(path) && !is_of_root(store.files[path], ValueModel::Text(root_key))));
    if last_with_path(files, path) >= 0 {
        let file = files[last_with_path(files, path)];
        assert(file.root_key@ == root_key);
        assert(file_values(file)[3] == ValueModel::Text(root_key));
    }
}

/// The stored files stay a table, with each row under its path, whatever
/// statements are run.
pub proof fn stored_files_stay_a_table(store: StoreModel, changes: Seq<StatementModel>)
    requires
        is_table(store.files),
    ensures
        is_table(store_after_all(store, changes).files),
    decreases changes.len(),
{
    if changes.len() > 0 {
        stored_files_stay_a_table(store, changes.drop_last());
        let before = store_after_all(store, changes.drop_last());
        let after = store_after(before, changes.last());
        assert(after.files.dom().finite()) by {
            if after.files != before.files && changes.last().sql == DELETE_ROOT_FILES@
                && changes.last().values.len() == 1 {
                assert(after.files.dom().subset_of(before.files.dom()));
                vstd::set_lib::lemma_set_subset_finite(before.files.dom(), after.files.dom());
            }
        }
        assert forall|path: Seq<char>| #[trigger]
            after.files.contains_key(path) implies after.files[path][PATH_COLUMN as int]
            == ValueModel::Text(path) by {
            if before.files.contains_key(path) {
                assert(before.files[path][PATH_COLUMN as int] == ValueModel::Text(path));
            }
        }
    }
}

// ---------------------------------------------------------------------------
// The rows of a page
// ---------------------------------------------------------------------------

/// The text in a column; nothing where there is none.
pub open spec fn row_text(row: Row, column: usize) -> Seq<char> {
    match row[column as int] {
        ValueModel::Text(text) => text,
        _ => Seq::empty(),
    }
}

/// The number in a column, where there is one.
pub open spec fn row_number(row: Row, column: usize) -> Option<i64> {
    match row[column as int] {
        ValueModel::Integer(number) => Some(number),
        _ => None,
    }
}

/// A request is about a row: it is of the kind of media, and in the directory
/// or under one of the keys that are asked for.
pub open spec fn row_matches(request: ResourceQuery, row: Row) -> bool {
    &&& row[MEDIA_KIND_COLUMN as int] == ValueModel::Text(request.media_kind@)
    &&& if request.kind@ == "directory"@ {
        row[DIRECTORY_COLUMN as int] == ValueModel::Text(request.key@)
    } else {
        let key = row[(if request.kind@ == "music_artist"@ {
            ARTIST_KEY_COLUMN
        } else {
            SERIES_KEY_COLUMN
        }) as int];
        key is Text && texts(request.source_keys@).contains(key->Text_0)
    }
}

/// Numbers ascend, and what has none comes last.
pub open spec fn number_le(a: Option<i64>, b: Option<i64>) -> bool {
    match (a, b) {
        (Some(a), Some(b)) => a <= b,
        (Some(_), None) => true,
        (None, Some(_)) => false,
        (None, None) => true,
    }
}

/// The order of rows: by season, by episode, by name and by path, the last two
/// without regard to the case of ASCII letters.
pub open spec fn row_le(a: Row, b: Row) -> bool {
    let seasons = (row_number(a, SEASON_COLUMN), row_number(b, SEASON_COLUMN));
    let episodes = (row_number(a, EPISODE_COLUMN), row_number(b, EPISODE_COLUMN));
    let names = (
        ascii_lower(row_text(a, FILE_NAME_COLUMN)),
        ascii_lower(row_text(b, FILE_NAME_COLUMN)),
    );
    if seasons.0 != seasons.1 {
        number_le(seasons.0, seasons.1)
    } else if episodes.0 != episodes.1 {
        number_le(episodes.0, episodes.1)
    } else if names.0 != names.1 {
        text_le(names.0, names.1)
    } else {
        text_le(ascii_lower(row_text(a, PATH_COLUMN)), ascii_lower(row_text(b, PATH_COLUMN)))
    }
}

/// Rows that stand in their order.
pub open spec fn rows_ascend(rows: Seq<Row>) -> bool {
    forall|i: int, j: int| 0 <= i <= j < rows.len() ==> row_le(#[trigger] rows[i], #[trigger] rows[j])
}

/// A table has finitely many rows, each under its path.
pub open spec fn is_table(table: FileTable) -> bool {
    &&& table.dom().finite()
    &&& forall|path: Seq<char>| #[trigger]
        table.contains_key(path) ==> table[path][PATH_COLUMN as int] == ValueModel::Text(path)
}

/// The paths of the rows that a request is about.
pub open spec fn matching_paths(table: FileTable, request: ResourceQuery) -> Set<Seq<char>> {
    table.dom().filter(|path: Seq<char>| row_matches(request, table[path]))
}

/// No two of the paths differ in the case of ASCII letters alone.
pub open spec fn paths_differ(paths: Set<Seq<char>>) -> bool {
    forall|a: Seq<char>, b: Seq<char>| #[trigger]
        paths.contains(a) && #[trigger] paths.contains(b) && ascii_lower(a) == ascii_lower(b)
            ==> a == b
}

/// The rows are those of the paths, each once, in their order.
pub open spec fn is_list_of(table: FileTable, paths: Set<Seq<char>>, rows: Seq<Row>) -> bool {
    &&& forall|i: int|
        0 <= i < rows.len() ==> paths.contains(row_text(#[trigger] rows[i], PATH_COLUMN)) && rows[i]
            == table[row_text(rows[i], PATH_COLUMN)]
    &&& forall|path: Seq<char>| #[trigger] paths.contains(path) ==> rows.contains(table[path])
    &&& rows.no_duplicates()
    &&& rows_ascend(rows)
}

/// The list that the pages of a request are taken from: the rows that it is
/// about, each once, in their order.
pub open spec fn listing(table: FileTable, request: ResourceQuery) -> Seq<Row> {
    choose|rows: Seq<Row>| is_list_of(table, matching_paths(table, request), rows)
}

/// The rows of the page that a request asks for.
pub open spec fn page_rows(table: FileTable, request: ResourceQuery) -> Seq<Row> {
    page_of(listing(table, request), page_limit(request.limit) as nat, request.offset as nat)
}

proof fn lemma_rows_are_ordered(a: Row, b: Row, c: Row)
    ensures
        row_le(a, a),
        row_le(a, b) || row_le(b, a),
        row_le(a, b) && row_le(b, c) ==> row_le(a, c),
        row_le(a, b) && row_le(b, a) ==> ascii_lower(row_text(a, PATH_COLUMN)) == ascii_lower(
            row_text(b, PATH_COLUMN),
        ),
{
    let name_a = ascii_lower(row_text(a, FILE_NAME_COLUMN));
    let name_b = ascii_lower(row_text(b, FILE_NAME_COLUMN));
    let name_c = ascii_lower(row_text(c, FILE_NAME_COLUMN));
    let path_a = ascii_lower(row_text(a, PATH_COLUMN));
    let path_b = ascii_lower(row_text(b, PATH_COLUMN));
    let path_c = ascii_lower(row_text(c, PATH_COLUMN));
    text_order_is_total(path_a, path_a);
    text_order_is_total(name_a, name_b);
    text_order_is_total(path_a, path_b);
    if text_le(name_a, name_b) && text_le(name_b, name_a) {
        text_order_is_antisymmetric(name_a, name_b);
    }
    if text_le(path_a, path_b) && text_le(path_b, path_a) {
        text_order_is_antisymmetric(path_a, path_b);
    }
    if text_le(name_a, name_b) && text_le(name_b, name_c) {
        text_order_is_transitive(name_a, name_b, name_c);
        if name_a == name_c {
            text_order_is_antisymmetric(name_a, name_b);
        }
    }
    if text_le(path_a, path_b) && text_le(path_b, path_c) {
        text_order_is_transitive(path_a, path_b, path_c);
    }
}

/// How many rows at the beginning of a list do not stand behind a row.
spec fn row_place(rows: Seq<Row>, row: Row) -> int
    decreases rows.len(),
{
    if rows.len() == 0 || !row_le(rows[0], row) {
        0
    } else {
        1 + row_place(rows.drop_first(), row)
    }
}

proof fn lemma_row_place(rows: Seq<Row>, row: Row)
    ensures
        0 <= row_place(rows, row) <= rows.len(),
        forall|i: int| 0 <= i < row_place(rows, row) ==> row_le(#[trigger] rows[i], row),
        row_place(rows, row) < rows.len() ==> !row_le(rows[row_place(rows, row)], row),
    decreases rows.len(),
{
    if rows.len() > 0 && row_le(rows[0], row) {
        let rest = rows.drop_first();
        lemma_row_place(rest, row);
        assert forall|i: int| 0 <= i < row_place(rows, row) implies row_le(#[trigger] rows[i], row) by {
            if i > 0 {
                assert(rows[i] == rest[i - 1]);
            }
        }
        if row_place(rows, row) < rows.len() {
            assert(rows[row_place(rows, row)] == rest[row_place(rest, row)]);
        }
    }
}

proof fn lemma_insert_row(rows: Seq<Row>, row: Row)
    requires
        rows_ascend(rows),
    ensures
        rows_ascend(rows.insert(row_place(rows, row), row)),
{
    lemma_row_place(rows, row);
    let p = row_place(rows, row);
    let all = rows.insert(p, row);
    assert forall|i: int, j: int| 0 <= i <= j < all.len() implies row_le(
        #[trigger] all[i],
        #[trigger] all[j],
    ) by {
        if i == j {
            lemma_rows_are_ordered(all[i], all[i], all[i]);
        } else if i < p && j < p {
            assert(all[i] == rows[i] && all[j] == rows[j]);
        } else if i < p && j == p {
            assert(all[i] == rows[i]);
        } else if i < p {
            assert(all[i] == rows[i] && all[j] == rows[j - 1]);
        } else if i == p {
            assert(all[j] == rows[j - 1]);
            assert(row_le(rows[p], rows[j - 1]));
            lemma_rows_are_ordered(rows[p], row, row);
            lemma_rows_are_ordered(row, rows[p], rows[j - 1]);
        } else {
            assert(all[i] == rows[i - 1] && all[j] == rows[j - 1]);
        }
    }
}

proof fn lemma_list_exists(table: FileTable, paths: Set<Seq<char>>) -> (rows: Seq<Row>)
    requires
        is_table(table),
        paths.finite(),
        paths.subset_of(table.dom()),
    ensures
        is_list_of(table, paths, rows),
    decreases paths.len(),
{
    if paths.len() == 0 {
        assert(paths =~= Set::empty());
        Seq::empty()
    } else {
        let path = paths.choose();
        let rest = paths.remove(path);
        let before = lemma_list_exists(table, rest);
        let row = table[path];
        assert(table.contains_key(path));
        assert(row_text(row, PATH_COLUMN) == path);
        lemma_row_place(before, row);
        lemma_insert_row(before, row);
        let p = row_place(before, row);
        let rows = before.insert(p, row);
        assert forall|i: int| 0 <= i < rows.len() implies paths.contains(
            row_text(#[trigger] rows[i], PATH_COLUMN),
        ) && rows[i] == table[row_text(rows[i], PATH_COLUMN)] by {
            if i < p {
                assert(rows[i] == before[i]);
                assert(rest.contains(row_text(before[i], PATH_COLUMN)));
            } else if i > p {
                assert(rows[i] == before[i - 1]);
                assert(rest.contains(row_text(before[i - 1], PATH_COLUMN)));
            }
        }
        assert forall|other: Seq<char>| #[trigger] paths.contains(other) implies rows.contains(
            table[other],
        ) by {
            if other == path {
                assert(rows[p] == row);
            } else {
                assert(rest.contains(other));
                assert(before.contains(table[other]));
                let i = choose|i: int| 0 <= i < before.len() && before[i] == table[other];
                assert(rows[if i < p {
                    i
                } else {
                    i + 1
                }] == table[other]);
            }
        }
        assert forall|i: int, j: int|
            0 <= i < rows.len() && 0 <= j < rows.len() && i != j implies rows[i] != rows[j] by {
            let x = if i < p {
                i
            } else {
                i - 1
            };
            let y = if j < p {
                j
            } else {
                j - 1
            };
            if i != p && j != p {
                assert(rows[i] == before[x] && rows[j] == before[y]);
                assert(x != y);
            } else if i == p {
                assert(rows[j] == before[y]);
                assert(rest.contains(row_text(before[y], PATH_COLUMN)));
            } else {
                assert(rows[i] == before[x]);
                assert(rest.contains(row_text(before[x], PATH_COLUMN)));
            }
        }
        rows
    }
}

proof fn lemma_shorter_list(table: FileTable, paths: Set<Seq<char>>, rows: Seq<Row>)
    requires
        is_table(table),
        paths.subset_of(table.dom()),
        is_list_of(table, paths, rows),
        rows.len() > 0,
    ensures
        paths.contains(row_text(rows.last(), PATH_COLUMN)),
        is_list_of(
            table,
            paths.remove(row_text(rows.last(), PATH_COLUMN)),
            rows.drop_last(),
        ),
{
    let last = rows[rows.len() - 1];
    let path = row_text(last, PATH_COLUMN);
    let rest = paths.remove(path);
    let before = rows.drop_last();
    assert(paths.contains(path));
    assert forall|i: int| 0 <= i < before.len() implies rest.contains(
        row_text(#[trigger] before[i], PATH_COLUMN),
    ) && before[i] == table[row_text(before[i], PATH_COLUMN)] by {
        assert(before[i] == rows[i]);
        assert(paths.contains(row_text(rows[i], PATH_COLUMN)));
        if row_text(rows[i], PATH_COLUMN) == path {
            assert(rows[i] == rows[rows.len() - 1]);
        }
    }
    assert forall|other: Seq<char>| #[trigger] rest.contains(other) implies before.contains(
        table[other],
    ) by {
        assert(paths.contains(other));
        assert(rows.contains(table[other]));
        let i = choose|i: int| 0 <= i < rows.len() && rows[i] == table[other];
        assert(table.contains_key(other));
        assert(row_text(table[other], PATH_COLUMN) == other);
        assert(i < rows.len() - 1);
        assert(before[i] == table[other]);
    }
    assert forall|i: int, j: int| 0 <= i <= j < before.len() implies row_le(
        #[trigger] before[i],
        #[trigger] before[j],
    ) by {
        assert(before[i] == rows[i] && before[j] == rows[j]);
    }
}

proof fn lemma_list_length(table: FileTable, paths: Set<Seq<char>>, rows: Seq<Row>)
    requires
        is_table(table),
        paths.finite(),
        paths.subset_of(table.dom()),
        is_list_of(table, paths, rows),
    ensures
        rows.len() == paths.len(),
    decreases rows.len(),
{
    if rows.len() == 0 {
        assert forall|path: Seq<char>| !paths.contains(path) by {
            if paths.contains(path) {
                assert(rows.contains(table[path]));
            }
        }
        assert(paths =~= Set::empty());
    } else {
        lemma_shorter_list(table, paths, rows);
        lemma_list_length(
            table,
            paths.remove(row_text(rows.last(), PATH_COLUMN)),
            rows.drop_last(),
        );
    }
}

proof fn lemma_lists_agree(
    table: FileTable,
    paths: Set<Seq<char>>,
    rows: Seq<Row>,
    others: Seq<Row>,
)
    requires
        is_table(table),
        paths.finite(),
        paths.subset_of(table.dom()),
        paths_differ(paths),
        is_list_of(table, paths, rows),
        is_list_of(table, paths, others),
    ensures
        rows == others,
    decreases rows.len(),
{
    lemma_list_length(table, paths, rows);
    lemma_list_length(table, paths, others);
    if rows.len() > 0 {
        let n = rows.len() - 1;
        let path = row_text(rows[n], PATH_COLUMN);
        let other = row_text(others[n], PATH_COLUMN);
        assert(paths.contains(path) && paths.contains(other));
        assert(others.contains(table[path]));
        let i = choose|i: int| 0 <= i < others.len() && others[i] == table[path];
        assert(row_le(others[i], others[n]));
        assert(rows.contains(table[other]));
        let j = choose|j: int| 0 <= j < rows.len() && rows[j] == table[other];
        assert(row_le(rows[j], rows[n]));
        lemma_rows_are_ordered(rows[n], others[n], rows[n]);
        assert(path == other);
        assert(rows.last() == others.last());
        lemma_shorter_list(table, paths, rows);
        lemma_shorter_list(table, paths, others);
        let rest = paths.remove(path);
        assert forall|a: Seq<char>, b: Seq<char>| #[trigger]
            rest.contains(a) && #[trigger] rest.contains(b) && ascii_lower(a) == ascii_lower(
                b,
            ) implies a == b by {
            assert(paths.contains(a) && paths.contains(b));
        }
        lemma_lists_agree(table, rest, rows.drop_last(), others.drop_last());
        assert(rows =~= rows.drop_last().push(rows.last()));
        assert(others =~= others.drop_last().push(others.last()));
    } else {
        assert(rows =~= others);
    }
}

/// A request has one list: there is a list of the rows that it is about, each
/// once and in their order, and there is no other.
pub proof fn a_request_has_one_list(table: FileTable, request: ResourceQuery, rows: Seq<Row>)
    requires
        is_table(table),
        paths_differ(matching_paths(table, request)),
    ensures
        is_list_of(table, matching_paths(table, request), listing(table, request)),
        is_list_of(table, matching_paths(table, request), rows) ==> rows == listing(table, request),
{
    let paths = matching_paths(table, request);
    assert(paths.subset_of(table.dom()));
    assert(paths.finite());
    let found = lemma_list_exists(table, paths);
    assert(is_list_of(table, paths, found));
    if is_list_of(table, paths, rows) {
        lemma_lists_agree(table, paths, rows, listing(table, request));
    }
}

/// The pages of a request hold the rows that it is about. There are as many of
/// them as are counted. They ascend by season and episode, what has none last,
/// then by name and path. A page holds as many as its limit, or as there are
/// behind its offset, and pages that follow each other hold every row exactly
/// once, in this order.
pub proof fn pages_read_the_matching_rows(table: FileTable, request: ResourceQuery, count: nat)
    requires
        is_table(table),
        paths_differ(matching_paths(table, request)),
    ensures
        ({
            let rows = listing(table, request);
            let total = matching_paths(table, request).len();
            let limit = page_limit(request.limit) as nat;
            let offset = request.offset as nat;
            &&& rows.len() == total
            &&& rows.no_duplicates()
            &&& rows_ascend(rows)
            &&& forall|path: Seq<char>| #[trigger]
                table.contains_key(path) && row_matches(request, table[path]) ==> rows.contains(
                    table[path],
                )
            &&& forall|i: int|
                0 <= i < rows.len() ==> row_matches(request, #[trigger] rows[i])
                    && table.contains_key(row_text(rows[i], PATH_COLUMN)) && rows[i]
                    == table[row_text(rows[i], PATH_COLUMN)]
            &&& page_rows(table, request).len() == (if offset >= total {
                0
            } else if offset + limit < total {
                limit as int
            } else {
                total - offset
            })
            &&& count * limit >= total ==> first_pages(rows, limit, count) == rows
        }),
{
    let paths = matching_paths(table, request);
    let rows = listing(table, request);
    a_request_has_one_list(table, request, rows);
    lemma_list_length(table, paths, rows);
    pages_hold_every_row_once(rows, request.limit, request.offset as nat, count);
    assert forall|path: Seq<char>| #[trigger] table.contains_key(path) && row_matches(
        request,
        table[path],
    ) implies rows.contains(table[path]) by {
        assert(paths.contains(path));
    }
    assert forall|i: int| 0 <= i < rows.len() implies row_matches(request, #[trigger] rows[i])
        && table.contains_key(row_text(rows[i], PATH_COLUMN)) && rows[i] == table[row_text(
        rows[i],
        PATH_COLUMN,
    )] by {
        assert(paths.contains(row_text(rows[i], PATH_COLUMN)));
    }
}

/// Requests for pages of the same list read the same list.
pub proof fn pages_of_one_list_agree(table: FileTable, a: ResourceQuery, b: ResourceQuery)
    requires
        is_table(table),
        paths_differ(matching_paths(table, a)),
        same_list(a, b),
    ensures
        listing(table, a) == listing(table, b),
        page_rows(table, b) == page_of(
            listing(table, a),
            page_limit(a.limit) as nat,
            b.offset as nat,
        ),
{
    assert(matching_paths(table, a) =~= matching_paths(table, b));
    a_request_has_one_list(table, a, listing(table, b));
    a_request_has_one_list(table, b, listing(table, b));
}

} // verus!
