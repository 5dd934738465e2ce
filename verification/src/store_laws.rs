//! What is stored under which column: laws on the statements, held against the
//! lists in their texts.

use vstd::prelude::*;
use vstd::string::*;

use crate::analysis::{directory_of, opt_source_key, AnalyzedFile, FileMetadata};
use crate::media::{ResourceVariant, Seconds};
use crate::paths::{path_file_name, path_key};
use crate::query::{RESOURCE_ORDER, RESOURCE_SELECT};
use crate::report::ScanSummary;
use crate::rules::detected_series;
use crate::scan::{PendingSkip, SkipModel};
use crate::schema::{
    index_fields, stored_artist, stored_family, stored_kind, SELECT_INCOMPLETE_FILES,
    UPDATE_INDEX_FIELDS,
};
use crate::statements::{
    integer_or_null, real_or_null, text_or_null, SqlStatement, SqlValue, ValueModel,
};
use crate::store::{
    file_statement, file_values, root_statements, run_holds_row, run_statement, skip_statement,
    skip_statements, summary_values, ScanRun, StoredScanRun, DELETE_ROOT_FILES, INSERT_SCAN_RUN,
    INSERT_SKIP, SELECT_FAILED_SKIPS, SELECT_LIBRARY_FILES, SELECT_SCAN_RUNS, SELECT_SKIPS,
    UPDATE_SCAN_RUN, UPSERT_FILE,
};
use crate::tables::{
    ARTIST_KEY_COLUMN, DIRECTORY_COLUMN, EPISODE_COLUMN, FILE_NAME_COLUMN, MEDIA_KIND_COLUMN,
    PATH_COLUMN, ROOT_KEY_COLUMN, SEASON_COLUMN, SERIES_KEY_COLUMN,
};
use crate::text::{join, joined_parts_are_found_again, opt_text, split_on};

verus! {

// ---------------------------------------------------------------------------
// The columns of a stored file
// ---------------------------------------------------------------------------

pub const ROOT_PATH_COLUMN: usize = 2;

pub const FILE_SIZE_COLUMN: usize = 6;

pub const MODIFIED_MS_COLUMN: usize = 7;

pub const DURATION_SECONDS_COLUMN: usize = 8;

pub const CONTAINER_COLUMN: usize = 9;

pub const VIDEO_CODEC_COLUMN: usize = 10;

pub const AUDIO_CODEC_COLUMN: usize = 11;

pub const WIDTH_COLUMN: usize = 12;

pub const HEIGHT_COLUMN: usize = 13;

pub const RESOLUTION_COLUMN: usize = 14;

pub const SOURCE_COLUMN: usize = 15;

pub const RELEASE_GROUP_COLUMN: usize = 16;

pub const TITLE_GUESS_COLUMN: usize = 19;

pub const ITEM_KEY_COLUMN: usize = 20;

pub const MUSIC_ARTIST_COLUMN: usize = 21;

pub const MUSIC_ALBUM_COLUMN: usize = 22;

pub const MUSIC_TITLE_COLUMN: usize = 23;

pub const MUSIC_ARTIST_SOURCE_COLUMN: usize = 24;

pub const SERIES_TITLE_COLUMN: usize = 26;

pub const SERIES_SOURCE_COLUMN: usize = 27;

pub const FAMILY_KEY_COLUMN: usize = 29;

/// A text is a list, with commas between its parts, up to the next part, if it is
/// one up to the comma before it.
pub proof fn lemma_join_step(text: Seq<char>, parts: Seq<Seq<char>>, k: int, e: int, e2: int)
    requires
        1 <= k < parts.len(),
        0 <= e < e2 <= text.len(),
        text[e] == ',',
        join(parts.take(k), seq![',']) == text.take(e),
        text.subrange(e + 1, e2) == parts[k],
    ensures
        join(parts.take(k + 1), seq![',']) == text.take(e2),
{
    assert(parts.take(k + 1).drop_last() =~= parts.take(k));
    assert(text.take(e) + seq![','] + parts[k] =~= text.take(e2));
}

/// The columns that the text of the statement for a file lists.
pub open spec fn file_columns() -> Seq<Seq<char>> {
    seq![
        "\n        path"@,
        " file_name"@,
        " root_path"@,
        " root_key"@,
        " directory_path"@,
        " media_kind"@,
        " file_size"@,
        "\n        modified_ms"@,
        " duration_seconds"@,
        " container"@,
        " video_codec"@,
        " audio_codec"@,
        " width"@,
        " height"@,
        "\n        resolution"@,
        " source"@,
        " release_group"@,
        " season_number"@,
        " episode_number"@,
        " title_guess"@,
        "\n        item_key"@,
        " music_artist"@,
        " music_album"@,
        " music_title"@,
        " music_artist_source"@,
        "\n        music_artist_key"@,
        " series_title"@,
        " series_source"@,
        " series_key"@,
        " family_key"@,
    ]
}

#[verifier::spinoff_prover]
#[verifier::rlimit(60)]
proof fn lemma_file_columns()
    ensures
        split_on(UPSERT_FILE@.subrange(32, 452), ',') == file_columns(),
{
    let text = UPSERT_FILE@.subrange(32, 452);
    let parts = file_columns();
    let comma = seq![','];
    reveal_strlit(r#"
      INSERT INTO media_files (
        path, file_name, root_path, root_key, directory_path, media_kind, file_size,
        modified_ms, duration_seconds, container, video_codec, audio_codec, width, height,
        resolution, source, release_group, season_number, episode_number, title_guess,
        item_key, music_artist, music_album, music_title, music_artist_source,
        music_artist_key, series_title, series_source, series_key, family_key
      )
      VALUES (
        ?1, ?2, ?3, ?4, ?5, ?6, ?7, ?8, ?9, ?10, ?11, ?12, ?13, ?14, ?15, ?16,
        ?17, ?18, ?19, ?20, ?21, ?22, ?23, ?24, ?25, ?26, ?27, ?28, ?29, ?30
      )
      ON CONFLICT(path) DO UPDATE SET
        file_name = excluded.file_name,
        root_path = excluded.root_path,
        root_key = excluded.root_key,
        directory_path = excluded.directory_path,
        media_kind = excluded.media_kind,
        file_size = excluded.file_size,
        modified_ms = excluded.modified_ms,
        duration_seconds = excluded.duration_seconds,
        container = excluded.container,
        video_codec = excluded.video_codec,
        audio_codec = excluded.audio_codec,
        width = excluded.width,
        height = excluded.height,
        resolution = excluded.resolution,
        source = excluded.source,
        release_group = excluded.release_group,
        season_number = excluded.season_number,
        episode_number = excluded.episode_number,
        title_guess = excluded.title_guess,
        item_key = excluded.item_key,
        music_artist = excluded.music_artist,
        music_album = excluded.music_album,
        music_title = excluded.music_title,
        music_artist_source = excluded.music_artist_source,
        music_artist_key = excluded.music_artist_key,
        series_title = excluded.series_title,
        series_source = excluded.series_source,
        series_key = excluded.series_key,
        family_key = excluded.family_key,
        updated_at = CURRENT_TIMESTAMP
      "#);
    assert(UPSERT_FILE@.len() == 1995);
    reveal_strlit("\n        path");
    assert(text.subrange(0, 13) =~= "\n        path"@);
    assert(!"\n        path"@.contains(','));
    assert(parts.take(1) =~= seq![parts[0]]);
    assert(text.take(13) =~= text.subrange(0, 13));
    assert(join(parts.take(1), comma) == text.take(13));
    reveal_strlit(" file_name");
    assert(text.subrange(14, 24) =~= " file_name"@);
    assert(!" file_name"@.contains(','));
    assert(text[13] == ',');
    lemma_join_step(text, parts, 1, 13, 24);
    reveal_strlit(" root_path");
    assert(text.subrange(25, 35) =~= " root_path"@);
    assert(!" root_path"@.contains(','));
    assert(text[24] == ',');
    lemma_join_step(text, parts, 2, 24, 35);
    reveal_strlit(" root_key");
    assert(text.subrange(36, 45) =~= " root_key"@);
    assert(!" root_key"@.contains(','));
    assert(text[35] == ',');
    lemma_join_step(text, parts, 3, 35, 45);
    reveal_strlit(" directory_path");
    assert(text.subrange(46, 61) =~= " directory_path"@);
    assert(!" directory_path"@.contains(','));
    assert(text[45] == ',');
    lemma_join_step(text, parts, 4, 45, 61);
    reveal_strlit(" media_kind");
    assert(text.subrange(62, 73) =~= " media_kind"@);
    assert(!" media_kind"@.contains(','));
    assert(text[61] == ',');
    lemma_join_step(text, parts, 5, 61, 73);
    reveal_strlit(" file_size");
    assert(text.subrange(74, 84) =~= " file_size"@);
    assert(!" file_size"@.contains(','));
    assert(text[73] == ',');
    lemma_join_step(text, parts, 6, 73, 84);
    reveal_strlit("\n        modified_ms");
    assert(text.subrange(85, 105) =~= "\n        modified_ms"@);
    assert(!"\n        modified_ms"@.contains(','));
    assert(text[84] == ',');
    lemma_join_step(text, parts, 7, 84, 105);
    reveal_strlit(" duration_seconds");
    assert(text.subrange(106, 123) =~= " duration_seconds"@);
    assert(!" duration_seconds"@.contains(','));
    assert(text[105] == ',');
    lemma_join_step(text, parts, 8, 105, 123);
    reveal_strlit(" container");
    assert(text.subrange(124, 134) =~= " container"@);
    assert(!" container"@.contains(','));
    assert(text[123] == ',');
    lemma_join_step(text, parts, 9, 123, 134);
    reveal_strlit(" video_codec");
    assert(text.subrange(135, 147) =~= " video_codec"@);
    assert(!" video_codec"@.contains(','));
    assert(text[134] == ',');
    lemma_join_step(text, parts, 10, 134, 147);
    reveal_strlit(" audio_codec");
    assert(text.subrange(148, 160) =~= " audio_codec"@);
    assert(!" audio_codec"@.contains(','));
    assert(text[147] == ',');
    lemma_join_step(text, parts, 11, 147, 160);
    reveal_strlit(" width");
    assert(text.subrange(161, 167) =~= " width"@);
    assert(!" width"@.contains(','));
    assert(text[160] == ',');
    lemma_join_step(text, parts, 12, 160, 167);
    reveal_strlit(" height");
    assert(text.subrange(168, 175) =~= " height"@);
    assert(!" height"@.contains(','));
    assert(text[167] == ',');
    lemma_join_step(text, parts, 13, 167, 175);
    reveal_strlit("\n        resolution");
    assert(text.subrange(176, 195) =~= "\n        resolution"@);
    assert(!"\n        resolution"@.contains(','));
    assert(text[175] == ',');
    lemma_join_step(text, parts, 14, 175, 195);
    reveal_strlit(" source");
    assert(text.subrange(196, 203) =~= " source"@);
    assert(!" source"@.contains(','));
    assert(text[195] == ',');
    lemma_join_step(text, parts, 15, 195, 203);
    reveal_strlit(" release_group");
    assert(text.subrange(204, 218) =~= " release_group"@);
    assert(!" release_group"@.contains(','));
    assert(text[203] == ',');
    lemma_join_step(text, parts, 16, 203, 218);
    reveal_strlit(" season_number");
    assert(text.subrange(219, 233) =~= " season_number"@);
    assert(!" season_number"@.contains(','));
    assert(text[218] == ',');
    lemma_join_step(text, parts, 17, 218, 233);
    reveal_strlit(" episode_number");
    assert(text.subrange(234, 249) =~= " episode_number"@);
    assert(!" episode_number"@.contains(','));
    assert(text[233] == ',');
    lemma_join_step(text, parts, 18, 233, 249);
    reveal_strlit(" title_guess");
    assert(text.subrange(250, 262) =~= " title_guess"@);
    assert(!" title_guess"@.contains(','));
    assert(text[249] == ',');
    lemma_join_step(text, parts, 19, 249, 262);
    reveal_strlit("\n        item_key");
    assert(text.subrange(263, 280) =~= "\n        item_key"@);
    assert(!"\n        item_key"@.contains(','));
    assert(text[262] == ',');
    lemma_join_step(text, parts, 20, 262, 280);
    reveal_strlit(" music_artist");
    assert(text.subrange(281, 294) =~= " music_artist"@);
    assert(!" music_artist"@.contains(','));
    assert(text[280] == ',');
    lemma_join_step(text, parts, 21, 280, 294);
    reveal_strlit(" music_album");
    assert(text.subrange(295, 307) =~= " music_album"@);
    assert(!" music_album"@.contains(','));
    assert(text[294] == ',');
    lemma_join_step(text, parts, 22, 294, 307);
    reveal_strlit(" music_title");
    assert(text.subrange(308, 320) =~= " music_title"@);
    assert(!" music_title"@.contains(','));
    assert(text[307] == ',');
    lemma_join_step(text, parts, 23, 307, 320);
    reveal_strlit(" music_artist_source");
    assert(text.subrange(321, 341) =~= " music_artist_source"@);
    assert(!" music_artist_source"@.contains(','));
    assert(text[320] == ',');
    lemma_join_step(text, parts, 24, 320, 341);
    reveal_strlit("\n        music_artist_key");
    assert(text.subrange(342, 367) =~= "\n        music_artist_key"@);
    assert(!"\n        music_artist_key"@.contains(','));
    assert(text[341] == ',');
    lemma_join_step(text, parts, 25, 341, 367);
    reveal_strlit(" series_title");
    assert(text.subrange(368, 381) =~= " series_title"@);
    assert(!" series_title"@.contains(','));
    assert(text[367] == ',');
    lemma_join_step(text, parts, 26, 367, 381);
    reveal_strlit(" series_source");
    assert(text.subrange(382, 396) =~= " series_source"@);
    assert(!" series_source"@.contains(','));
    assert(text[381] == ',');
    lemma_join_step(text, parts, 27, 381, 396);
    reveal_strlit(" series_key");
    assert(text.subrange(397, 408) =~= " series_key"@);
    assert(!" series_key"@.contains(','));
    assert(text[396] == ',');
    lemma_join_step(text, parts, 28, 396, 408);
    reveal_strlit(" family_key");
    assert(text.subrange(409, 420) =~= " family_key"@);
    assert(!" family_key"@.contains(','));
    assert(text[408] == ',');
    lemma_join_step(text, parts, 29, 408, 420);
    assert(parts.take(30) =~= parts);
    assert(text.take(420) =~= text);
    assert forall|i: int| 0 <= i < parts.len() implies !(#[trigger] parts[i]).contains(',') by {
        assert(0 <= i < 30);
    }
    joined_parts_are_found_again(parts, ',');
}

/// The parameters that the text of the statement for a file lists.
pub open spec fn file_parameters() -> Seq<Seq<char>> {
    seq![
        "\n        ?1"@,
        " ?2"@,
        " ?3"@,
        " ?4"@,
        " ?5"@,
        " ?6"@,
        " ?7"@,
        " ?8"@,
        " ?9"@,
        " ?10"@,
        " ?11"@,
        " ?12"@,
        " ?13"@,
        " ?14"@,
        " ?15"@,
        " ?16"@,
        "\n        ?17"@,
        " ?18"@,
        " ?19"@,
        " ?20"@,
        " ?21"@,
        " ?22"@,
        " ?23"@,
        " ?24"@,
        " ?25"@,
        " ?26"@,
        " ?27"@,
        " ?28"@,
        " ?29"@,
        " ?30"@,
    ]
}

#[verifier::spinoff_prover]
#[verifier::rlimit(60)]
proof fn lemma_file_parameters()
    ensures
        split_on(UPSERT_FILE@.subrange(475, 631), ',') == file_parameters(),
{
    let text = UPSERT_FILE@.subrange(475, 631);
    let parts = file_parameters();
    let comma = seq![','];
    reveal_strlit(r#"
      INSERT INTO media_files (
        path, file_name, root_path, root_key, directory_path, media_kind, file_size,
        modified_ms, duration_seconds, container, video_codec, audio_codec, width, height,
        resolution, source, release_group, season_number, episode_number, title_guess,
        item_key, music_artist, music_album, music_title, music_artist_source,
        music_artist_key, series_title, series_source, series_key, family_key
      )
      VALUES (
        ?1, ?2, ?3, ?4, ?5, ?6, ?7, ?8, ?9, ?10, ?11, ?12, ?13, ?14, ?15, ?16,
        ?17, ?18, ?19, ?20, ?21, ?22, ?23, ?24, ?25, ?26, ?27, ?28, ?29, ?30
      )
      ON CONFLICT(path) DO UPDATE SET
        file_name = excluded.file_name,
        root_path = excluded.root_path,
        root_key = excluded.root_key,
        directory_path = excluded.directory_path,
        media_kind = excluded.media_kind,
        file_size = excluded.file_size,
        modified_ms = excluded.modified_ms,
        duration_seconds = excluded.duration_seconds,
        container = excluded.container,
        video_codec = excluded.video_codec,
        audio_codec = excluded.audio_codec,
        width = excluded.width,
        height = excluded.height,
        resolution = excluded.resolution,
        source = excluded.source,
        release_group = excluded.release_group,
        season_number = excluded.season_number,
        episode_number = excluded.episode_number,
        title_guess = excluded.title_guess,
        item_key = excluded.item_key,
        music_artist = excluded.music_artist,
        music_album = excluded.music_album,
        music_title = excluded.music_title,
        music_artist_source = excluded.music_artist_source,
        music_artist_key = excluded.music_artist_key,
        series_title = excluded.series_title,
        series_source = excluded.series_source,
        series_key = excluded.series_key,
        family_key = excluded.family_key,
        updated_at = CURRENT_TIMESTAMP
      "#);
    assert(UPSERT_FILE@.len() == 1995);
    reveal_strlit("\n        ?1");
    assert(text.subrange(0, 11) =~= "\n        ?1"@);
    assert(!"\n        ?1"@.contains(','));
    assert(parts.take(1) =~= seq![parts[0]]);
    assert(text.take(11) =~= text.subrange(0, 11));
    assert(join(parts.take(1), comma) == text.take(11));
    reveal_strlit(" ?2");
    assert(text.subrange(12, 15) =~= " ?2"@);
    assert(!" ?2"@.contains(','));
    assert(text[11] == ',');
    lemma_join_step(text, parts, 1, 11, 15);
    reveal_strlit(" ?3");
    assert(text.subrange(16, 19) =~= " ?3"@);
    assert(!" ?3"@.contains(','));
    assert(text[15] == ',');
    lemma_join_step(text, parts, 2, 15, 19);
    reveal_strlit(" ?4");
    assert(text.subrange(20, 23) =~= " ?4"@);
    assert(!" ?4"@.contains(','));
    assert(text[19] == ',');
    lemma_join_step(text, parts, 3, 19, 23);
    reveal_strlit(" ?5");
    assert(text.subrange(24, 27) =~= " ?5"@);
    assert(!" ?5"@.contains(','));
    assert(text[23] == ',');
    lemma_join_step(text, parts, 4, 23, 27);
    reveal_strlit(" ?6");
    assert(text.subrange(28, 31) =~= " ?6"@);
    assert(!" ?6"@.contains(','));
    assert(text[27] == ',');
    lemma_join_step(text, parts, 5, 27, 31);
    reveal_strlit(" ?7");
    assert(text.subrange(32, 35) =~= " ?7"@);
    assert(!" ?7"@.contains(','));
    assert(text[31] == ',');
    lemma_join_step(text, parts, 6, 31, 35);
    reveal_strlit(" ?8");
    assert(text.subrange(36, 39) =~= " ?8"@);
    assert(!" ?8"@.contains(','));
    assert(text[35] == ',');
    lemma_join_step(text, parts, 7, 35, 39);
    reveal_strlit(" ?9");
    assert(text.subrange(40, 43) =~= " ?9"@);
    assert(!" ?9"@.contains(','));
    assert(text[39] == ',');
    lemma_join_step(text, parts, 8, 39, 43);
    reveal_strlit(" ?10");
    assert(text.subrange(44, 48) =~= " ?10"@);
    assert(!" ?10"@.contains(','));
    assert(text[43] == ',');
    lemma_join_step(text, parts, 9, 43, 48);
    reveal_strlit(" ?11");
    assert(text.subrange(49, 53) =~= " ?11"@);
    assert(!" ?11"@.contains(','));
    assert(text[48] == ',');
    lemma_join_step(text, parts, 10, 48, 53);
    reveal_strlit(" ?12");
    assert(text.subrange(54, 58) =~= " ?12"@);
    assert(!" ?12"@.contains(','));
    assert(text[53] == ',');
    lemma_join_step(text, parts, 11, 53, 58);
    reveal_strlit(" ?13");
    assert(text.subrange(59, 63) =~= " ?13"@);
    assert(!" ?13"@.contains(','));
    assert(text[58] == ',');
    lemma_join_step(text, parts, 12, 58, 63);
    reveal_strlit(" ?14");
    assert(text.subrange(64, 68) =~= " ?14"@);
    assert(!" ?14"@.contains(','));
    assert(text[63] == ',');
    lemma_join_step(text, parts, 13, 63, 68);
    reveal_strlit(" ?15");
    assert(text.subrange(69, 73) =~= " ?15"@);
    assert(!" ?15"@.contains(','));
    assert(text[68] == ',');
    lemma_join_step(text, parts, 14, 68, 73);
    reveal_strlit(" ?16");
    assert(text.subrange(74, 78) =~= " ?16"@);
    assert(!" ?16"@.contains(','));
    assert(text[73] == ',');
    lemma_join_step(text, parts, 15, 73, 78);
    reveal_strlit("\n        ?17");
    assert(text.subrange(79, 91) =~= "\n        ?17"@);
    assert(!"\n        ?17"@.contains(','));
    assert(text[78] == ',');
    lemma_join_step(text, parts, 16, 78, 91);
    reveal_strlit(" ?18");
    assert(text.subrange(92, 96) =~= " ?18"@);
    assert(!" ?18"@.contains(','));
    assert(text[91] == ',');
    lemma_join_step(text, parts, 17, 91, 96);
    reveal_strlit(" ?19");
    assert(text.subrange(97, 101) =~= " ?19"@);
    assert(!" ?19"@.contains(','));
    assert(text[96] == ',');
    lemma_join_step(text, parts, 18, 96, 101);
    reveal_strlit(" ?20");
    assert(text.subrange(102, 106) =~= " ?20"@);
    assert(!" ?20"@.contains(','));
    assert(text[101] == ',');
    lemma_join_step(text, parts, 19, 101, 106);
    reveal_strlit(" ?21");
    assert(text.subrange(107, 111) =~= " ?21"@);
    assert(!" ?21"@.contains(','));
    assert(text[106] == ',');
    lemma_join_step(text, parts, 20, 106, 111);
    reveal_strlit(" ?22");
    assert(text.subrange(112, 116) =~= " ?22"@);
    assert(!" ?22"@.contains(','));
    assert(text[111] == ',');
    lemma_join_step(text, parts, 21, 111, 116);
    reveal_strlit(" ?23");
    assert(text.subrange(117, 121) =~= " ?23"@);
    assert(!" ?23"@.contains(','));
    assert(text[116] == ',');
    lemma_join_step(text, parts, 22, 116, 121);
    reveal_strlit(" ?24");
    assert(text.subrange(122, 126) =~= " ?24"@);
    assert(!" ?24"@.contains(','));
    assert(text[121] == ',');
    lemma_join_step(text, parts, 23, 121, 126);
    reveal_strlit(" ?25");
    assert(text.subrange(127, 131) =~= " ?25"@);
    assert(!" ?25"@.contains(','));
    assert(text[126] == ',');
    lemma_join_step(text, parts, 24, 126, 131);
    reveal_strlit(" ?26");
    assert(text.subrange(132, 136) =~= " ?26"@);
    assert(!" ?26"@.contains(','));
    assert(text[131] == ',');
    lemma_join_step(text, parts, 25, 131, 136);
    reveal_strlit(" ?27");
    assert(text.subrange(137, 141) =~= " ?27"@);
    assert(!" ?27"@.contains(','));
    assert(text[136] == ',');
    lemma_join_step(text, parts, 26, 136, 141);
    reveal_strlit(" ?28");
    assert(text.subrange(142, 146) =~= " ?28"@);
    assert(!" ?28"@.contains(','));
    assert(text[141] == ',');
    lemma_join_step(text, parts, 27, 141, 146);
    reveal_strlit(" ?29");
    assert(text.subrange(147, 151) =~= " ?29"@);
    assert(!" ?29"@.contains(','));
    assert(text[146] == ',');
    lemma_join_step(text, parts, 28, 146, 151);
    reveal_strlit(" ?30");
    assert(text.subrange(152, 156) =~= " ?30"@);
    assert(!" ?30"@.contains(','));
    assert(text[151] == ',');
    lemma_join_step(text, parts, 29, 151, 156);
    assert(parts.take(30) =~= parts);
    assert(text.take(156) =~= text);
    assert forall|i: int| 0 <= i < parts.len() implies !(#[trigger] parts[i]).contains(',') by {
        assert(0 <= i < 30);
    }
    joined_parts_are_found_again(parts, ',');
}

/// The changes that the text of the statement for a file makes to a row that is
/// there.
pub open spec fn file_changes() -> Seq<Seq<char>> {
    seq![
        "\n        file_name = excluded.file_name"@,
        "\n        root_path = excluded.root_path"@,
        "\n        root_key = excluded.root_key"@,
        "\n        directory_path = excluded.directory_path"@,
        "\n        media_kind = excluded.media_kind"@,
        "\n        file_size = excluded.file_size"@,
        "\n        modified_ms = excluded.modified_ms"@,
        "\n        duration_seconds = excluded.duration_seconds"@,
        "\n        container = excluded.container"@,
        "\n        video_codec = excluded.video_codec"@,
        "\n        audio_codec = excluded.audio_codec"@,
        "\n        width = excluded.width"@,
        "\n        height = excluded.height"@,
        "\n        resolution = excluded.resolution"@,
        "\n        source = excluded.source"@,
        "\n        release_group = excluded.release_group"@,
        "\n        season_number = excluded.season_number"@,
        "\n        episode_number = excluded.episode_number"@,
        "\n        title_guess = excluded.title_guess"@,
        "\n        item_key = excluded.item_key"@,
        "\n        music_artist = excluded.music_artist"@,
        "\n        music_album = excluded.music_album"@,
        "\n        music_title = excluded.music_title"@,
        "\n        music_artist_source = excluded.music_artist_source"@,
        "\n        music_artist_key = excluded.music_artist_key"@,
        "\n        series_title = excluded.series_title"@,
        "\n        series_source = excluded.series_source"@,
        "\n        series_key = excluded.series_key"@,
        "\n        family_key = excluded.family_key"@,
        "\n        updated_at = CURRENT_TIMESTAMP"@,
    ]
}

#[verifier::spinoff_prover]
#[verifier::rlimit(60)]
proof fn lemma_file_changes()
    ensures
        split_on(UPSERT_FILE@.subrange(677, 1988), ',') == file_changes(),
{
    let text = UPSERT_FILE@.subrange(677, 1988);
    let parts = file_changes();
    let comma = seq![','];
    reveal_strlit(r#"
      INSERT INTO media_files (
        path, file_name, root_path, root_key, directory_path, media_kind, file_size,
        modified_ms, duration_seconds, container, video_codec, audio_codec, width, height,
        resolution, source, release_group, season_number, episode_number, title_guess,
        item_key, music_artist, music_album, music_title, music_artist_source,
        music_artist_key, series_title, series_source, series_key, family_key
      )
      VALUES (
        ?1, ?2, ?3, ?4, ?5, ?6, ?7, ?8, ?9, ?10, ?11, ?12, ?13, ?14, ?15, ?16,
        ?17, ?18, ?19, ?20, ?21, ?22, ?23, ?24, ?25, ?26, ?27, ?28, ?29, ?30
      )
      ON CONFLICT(path) DO UPDATE SET
        file_name = excluded.file_name,
        root_path = excluded.root_path,
        root_key = excluded.root_key,
        directory_path = excluded.directory_path,
        media_kind = excluded.media_kind,
        file_size = excluded.file_size,
        modified_ms = excluded.modified_ms,
        duration_seconds = excluded.duration_seconds,
        container = excluded.container,
        video_codec = excluded.video_codec,
        audio_codec = excluded.audio_codec,
        width = excluded.width,
        height = excluded.height,
        resolution = excluded.resolution,
        source = excluded.source,
        release_group = excluded.release_group,
        season_number = excluded.season_number,
        episode_number = excluded.episode_number,
        title_guess = excluded.title_guess,
        item_key = excluded.item_key,
        music_artist = excluded.music_artist,
        music_album = excluded.music_album,
        music_title = excluded.music_title,
        music_artist_source = excluded.music_artist_source,
        music_artist_key = excluded.music_artist_key,
        series_title = excluded.series_title,
        series_source = excluded.series_source,
        series_key = excluded.series_key,
        family_key = excluded.family_key,
        updated_at = CURRENT_TIMESTAMP
      "#);
    assert(UPSERT_FILE@.len() == 1995);
    reveal_strlit("\n        file_name = excluded.file_name");
    assert(text.subrange(0, 39) =~= "\n        file_name = excluded.file_name"@);
    assert(!"\n        file_name = excluded.file_name"@.contains(','));
    assert(parts.take(1) =~= seq![parts[0]]);
    assert(text.take(39) =~= text.subrange(0, 39));
    assert(join(parts.take(1), comma) == text.take(39));
    reveal_strlit("\n        root_path = excluded.root_path");
    assert(text.subrange(40, 79) =~= "\n        root_path = excluded.root_path"@);
    assert(!"\n        root_path = excluded.root_path"@.contains(','));
    assert(text[39] == ',');
    lemma_join_step(text, parts, 1, 39, 79);
    reveal_strlit("\n        root_key = excluded.root_key");
    assert(text.subrange(80, 117) =~= "\n        root_key = excluded.root_key"@);
    assert(!"\n        root_key = excluded.root_key"@.contains(','));
    assert(text[79] == ',');
    lemma_join_step(text, parts, 2, 79, 117);
    reveal_strlit("\n        directory_path = excluded.directory_path");
    assert(text.subrange(118, 167) =~= "\n        directory_path = excluded.directory_path"@);
    assert(!"\n        directory_path = excluded.directory_path"@.contains(','));
    assert(text[117] == ',');
    lemma_join_step(text, parts, 3, 117, 167);
    reveal_strlit("\n        media_kind = excluded.media_kind");
    assert(text.subrange(168, 209) =~= "\n        media_kind = excluded.media_kind"@);
    assert(!"\n        media_kind = excluded.media_kind"@.contains(','));
    assert(text[167] == ',');
    lemma_join_step(text, parts, 4, 167, 209);
    reveal_strlit("\n        file_size = excluded.file_size");
    assert(text.subrange(210, 249) =~= "\n        file_size = excluded.file_size"@);
    assert(!"\n        file_size = excluded.file_size"@.contains(','));
    assert(text[209] == ',');
    lemma_join_step(text, parts, 5, 209, 249);
    reveal_strlit("\n        modified_ms = excluded.modified_ms");
    assert(text.subrange(250, 293) =~= "\n        modified_ms = excluded.modified_ms"@);
    assert(!"\n        modified_ms = excluded.modified_ms"@.contains(','));
    assert(text[249] == ',');
    lemma_join_step(text, parts, 6, 249, 293);
    reveal_strlit("\n        duration_seconds = excluded.duration_seconds");
    assert(text.subrange(294, 347) =~= "\n        duration_seconds = excluded.duration_seconds"@);
    assert(!"\n        duration_seconds = excluded.duration_seconds"@.contains(','));
    assert(text[293] == ',');
    lemma_join_step(text, parts, 7, 293, 347);
    reveal_strlit("\n        container = excluded.container");
    assert(text.subrange(348, 387) =~= "\n        container = excluded.container"@);
    assert(!"\n        container = excluded.container"@.contains(','));
    assert(text[347] == ',');
    lemma_join_step(text, parts, 8, 347, 387);
    reveal_strlit("\n        video_codec = excluded.video_codec");
    assert(text.subrange(388, 431) =~= "\n        video_codec = excluded.video_codec"@);
    assert(!"\n        video_codec = excluded.video_codec"@.contains(','));
    assert(text[387] == ',');
    lemma_join_step(text, parts, 9, 387, 431);
    reveal_strlit("\n        audio_codec = excluded.audio_codec");
    assert(text.subrange(432, 475) =~= "\n        audio_codec = excluded.audio_codec"@);
    assert(!"\n        audio_codec = excluded.audio_codec"@.contains(','));
    assert(text[431] == ',');
    lemma_join_step(text, parts, 10, 431, 475);
    reveal_strlit("\n        width = excluded.width");
    assert(text.subrange(476, 507) =~= "\n        width = excluded.width"@);
    assert(!"\n        width = excluded.width"@.contains(','));
    assert(text[475] == ',');
    lemma_join_step(text, parts, 11, 475, 507);
    reveal_strlit("\n        height = excluded.height");
    assert(text.subrange(508, 541) =~= "\n        height = excluded.height"@);
    assert(!"\n        height = excluded.height"@.contains(','));
    assert(text[507] == ',');
    lemma_join_step(text, parts, 12, 507, 541);
    reveal_strlit("\n        resolution = excluded.resolution");
    assert(text.subrange(542, 583) =~= "\n        resolution = excluded.resolution"@);
    assert(!"\n        resolution = excluded.resolution"@.contains(','));
    assert(text[541] == ',');
    lemma_join_step(text, parts, 13, 541, 583);
    reveal_strlit("\n        source = excluded.source");
    assert(text.subrange(584, 617) =~= "\n        source = excluded.source"@);
    assert(!"\n        source = excluded.source"@.contains(','));
    assert(text[583] == ',');
    lemma_join_step(text, parts, 14, 583, 617);
    reveal_strlit("\n        release_group = excluded.release_group");
    assert(text.subrange(618, 665) =~= "\n        release_group = excluded.release_group"@);
    assert(!"\n        release_group = excluded.release_group"@.contains(','));
    assert(text[617] == ',');
    lemma_join_step(text, parts, 15, 617, 665);
    reveal_strlit("\n        season_number = excluded.season_number");
    assert(text.subrange(666, 713) =~= "\n        season_number = excluded.season_number"@);
    assert(!"\n        season_number = excluded.season_number"@.contains(','));
    assert(text[665] == ',');
    lemma_join_step(text, parts, 16, 665, 713);
    reveal_strlit("\n        episode_number = excluded.episode_number");
    assert(text.subrange(714, 763) =~= "\n        episode_number = excluded.episode_number"@);
    assert(!"\n        episode_number = excluded.episode_number"@.contains(','));
    assert(text[713] == ',');
    lemma_join_step(text, parts, 17, 713, 763);
    reveal_strlit("\n        title_guess = excluded.title_guess");
    assert(text.subrange(764, 807) =~= "\n        title_guess = excluded.title_guess"@);
    assert(!"\n        title_guess = excluded.title_guess"@.contains(','));
    assert(text[763] == ',');
    lemma_join_step(text, parts, 18, 763, 807);
    reveal_strlit("\n        item_key = excluded.item_key");
    assert(text.subrange(808, 845) =~= "\n        item_key = excluded.item_key"@);
    assert(!"\n        item_key = excluded.item_key"@.contains(','));
    assert(text[807] == ',');
    lemma_join_step(text, parts, 19, 807, 845);
    reveal_strlit("\n        music_artist = excluded.music_artist");
    assert(text.subrange(846, 891) =~= "\n        music_artist = excluded.music_artist"@);
    assert(!"\n        music_artist = excluded.music_artist"@.contains(','));
    assert(text[845] == ',');
    lemma_join_step(text, parts, 20, 845, 891);
    reveal_strlit("\n        music_album = excluded.music_album");
    assert(text.subrange(892, 935) =~= "\n        music_album = excluded.music_album"@);
    assert(!"\n        music_album = excluded.music_album"@.contains(','));
    assert(text[891] == ',');
    lemma_join_step(text, parts, 21, 891, 935);
    reveal_strlit("\n        music_title = excluded.music_title");
    assert(text.subrange(936, 979) =~= "\n        music_title = excluded.music_title"@);
    assert(!"\n        music_title = excluded.music_title"@.contains(','));
    assert(text[935] == ',');
    lemma_join_step(text, parts, 22, 935, 979);
    reveal_strlit("\n        music_artist_source = excluded.music_artist_source");
    assert(text.subrange(980, 1039) =~= "\n        music_artist_source = excluded.music_artist_source"@);
    assert(!"\n        music_artist_source = excluded.music_artist_source"@.contains(','));
    assert(text[979] == ',');
    lemma_join_step(text, parts, 23, 979, 1039);
    reveal_strlit("\n        music_artist_key = excluded.music_artist_key");
    assert(text.subrange(1040, 1093) =~= "\n        music_artist_key = excluded.music_artist_key"@);
    assert(!"\n        music_artist_key = excluded.music_artist_key"@.contains(','));
    assert(text[1039] == ',');
    lemma_join_step(text, parts, 24, 1039, 1093);
    reveal_strlit("\n        series_title = excluded.series_title");
    assert(text.subrange(1094, 1139) =~= "\n        series_title = excluded.series_title"@);
    assert(!"\n        series_title = excluded.series_title"@.contains(','));
    assert(text[1093] == ',');
    lemma_join_step(text, parts, 25, 1093, 1139);
    reveal_strlit("\n        series_source = excluded.series_source");
    assert(text.subrange(1140, 1187) =~= "\n        series_source = excluded.series_source"@);
    assert(!"\n        series_source = excluded.series_source"@.contains(','));
    assert(text[1139] == ',');
    lemma_join_step(text, parts, 26, 1139, 1187);
    reveal_strlit("\n        series_key = excluded.series_key");
    assert(text.subrange(1188, 1229) =~= "\n        series_key = excluded.series_key"@);
    assert(!"\n        series_key = excluded.series_key"@.contains(','));
    assert(text[1187] == ',');
    lemma_join_step(text, parts, 27, 1187, 1229);
    reveal_strlit("\n        family_key = excluded.family_key");
    assert(text.subrange(1230, 1271) =~= "\n        family_key = excluded.family_key"@);
    assert(!"\n        family_key = excluded.family_key"@.contains(','));
    assert(text[1229] == ',');
    lemma_join_step(text, parts, 28, 1229, 1271);
    reveal_strlit("\n        updated_at = CURRENT_TIMESTAMP");
    assert(text.subrange(1272, 1311) =~= "\n        updated_at = CURRENT_TIMESTAMP"@);
    assert(!"\n        updated_at = CURRENT_TIMESTAMP"@.contains(','));
    assert(text[1271] == ',');
    lemma_join_step(text, parts, 29, 1271, 1311);
    assert(parts.take(30) =~= parts);
    assert(text.take(1311) =~= text);
    assert forall|i: int| 0 <= i < parts.len() implies !(#[trigger] parts[i]).contains(',') by {
        assert(0 <= i < 30);
    }
    joined_parts_are_found_again(parts, ',');
}

/// The text of the statement for a file lists its thirty columns in the order of
/// the named columns, and the parameters in the same order; a row that is there
/// gets the new value of each column but its path.
pub proof fn the_text_lists_the_columns_of_a_file()
    ensures
        split_on(UPSERT_FILE@.subrange(32, 452), ',')[PATH_COLUMN as int] == "\n        path"@,
        split_on(UPSERT_FILE@.subrange(32, 452), ',')[FILE_NAME_COLUMN as int] == " file_name"@,
        split_on(UPSERT_FILE@.subrange(32, 452), ',')[ROOT_PATH_COLUMN as int] == " root_path"@,
        split_on(UPSERT_FILE@.subrange(32, 452), ',')[ROOT_KEY_COLUMN as int] == " root_key"@,
        split_on(UPSERT_FILE@.subrange(32, 452), ',')[DIRECTORY_COLUMN as int] == " directory_path"@,
        split_on(UPSERT_FILE@.subrange(32, 452), ',')[MEDIA_KIND_COLUMN as int] == " media_kind"@,
        split_on(UPSERT_FILE@.subrange(32, 452), ',')[FILE_SIZE_COLUMN as int] == " file_size"@,
        split_on(UPSERT_FILE@.subrange(32, 452), ',')[MODIFIED_MS_COLUMN as int] == "\n        modified_ms"@,
        split_on(UPSERT_FILE@.subrange(32, 452), ',')[DURATION_SECONDS_COLUMN as int] == " duration_seconds"@,
        split_on(UPSERT_FILE@.subrange(32, 452), ',')[CONTAINER_COLUMN as int] == " container"@,
        split_on(UPSERT_FILE@.subrange(32, 452), ',')[VIDEO_CODEC_COLUMN as int] == " video_codec"@,
        split_on(UPSERT_FILE@.subrange(32, 452), ',')[AUDIO_CODEC_COLUMN as int] == " audio_codec"@,
        split_on(UPSERT_FILE@.subrange(32, 452), ',')[WIDTH_COLUMN as int] == " width"@,
        split_on(UPSERT_FILE@.subrange(32, 452), ',')[HEIGHT_COLUMN as int] == " height"@,
        split_on(UPSERT_FILE@.subrange(32, 452), ',')[RESOLUTION_COLUMN as int] == "\n        resolution"@,
        split_on(UPSERT_FILE@.subrange(32, 452), ',')[SOURCE_COLUMN as int] == " source"@,
        split_on(UPSERT_FILE@.subrange(32, 452), ',')[RELEASE_GROUP_COLUMN as int] == " release_group"@,
        split_on(UPSERT_FILE@.subrange(32, 452), ',')[SEASON_COLUMN as int] == " season_number"@,
        split_on(UPSERT_FILE@.subrange(32, 452), ',')[EPISODE_COLUMN as int] == " episode_number"@,
        split_on(UPSERT_FILE@.subrange(32, 452), ',')[TITLE_GUESS_COLUMN as int] == " title_guess"@,
        split_on(UPSERT_FILE@.subrange(32, 452), ',')[ITEM_KEY_COLUMN as int] == "\n        item_key"@,
        split_on(UPSERT_FILE@.subrange(32, 452), ',')[MUSIC_ARTIST_COLUMN as int] == " music_artist"@,
        split_on(UPSERT_FILE@.subrange(32, 452), ',')[MUSIC_ALBUM_COLUMN as int] == " music_album"@,
        split_on(UPSERT_FILE@.subrange(32, 452), ',')[MUSIC_TITLE_COLUMN as int] == " music_title"@,
        split_on(UPSERT_FILE@.subrange(32, 452), ',')[MUSIC_ARTIST_SOURCE_COLUMN as int] == " music_artist_source"@,
        split_on(UPSERT_FILE@.subrange(32, 452), ',')[ARTIST_KEY_COLUMN as int] == "\n        music_artist_key"@,
        split_on(UPSERT_FILE@.subrange(32, 452), ',')[SERIES_TITLE_COLUMN as int] == " series_title"@,
        split_on(UPSERT_FILE@.subrange(32, 452), ',')[SERIES_SOURCE_COLUMN as int] == " series_source"@,
        split_on(UPSERT_FILE@.subrange(32, 452), ',')[SERIES_KEY_COLUMN as int] == " series_key"@,
        split_on(UPSERT_FILE@.subrange(32, 452), ',')[FAMILY_KEY_COLUMN as int] == " family_key"@,
        split_on(UPSERT_FILE@.subrange(475, 631), ',')[PATH_COLUMN as int] == "\n        ?1"@,
        split_on(UPSERT_FILE@.subrange(475, 631), ',')[FILE_NAME_COLUMN as int] == " ?2"@,
        split_on(UPSERT_FILE@.subrange(475, 631), ',')[ROOT_PATH_COLUMN as int] == " ?3"@,
        split_on(UPSERT_FILE@.subrange(475, 631), ',')[ROOT_KEY_COLUMN as int] == " ?4"@,
        split_on(UPSERT_FILE@.subrange(475, 631), ',')[DIRECTORY_COLUMN as int] == " ?5"@,
        split_on(UPSERT_FILE@.subrange(475, 631), ',')[MEDIA_KIND_COLUMN as int] == " ?6"@,
        split_on(UPSERT_FILE@.subrange(475, 631), ',')[FILE_SIZE_COLUMN as int] == " ?7"@,
        split_on(UPSERT_FILE@.subrange(475, 631), ',')[MODIFIED_MS_COLUMN as int] == " ?8"@,
        split_on(UPSERT_FILE@.subrange(475, 631), ',')[DURATION_SECONDS_COLUMN as int] == " ?9"@,
        split_on(UPSERT_FILE@.subrange(475, 631), ',')[CONTAINER_COLUMN as int] == " ?10"@,
        split_on(UPSERT_FILE@.subrange(475, 631), ',')[VIDEO_CODEC_COLUMN as int] == " ?11"@,
        split_on(UPSERT_FILE@.subrange(475, 631), ',')[AUDIO_CODEC_COLUMN as int] == " ?12"@,
        split_on(UPSERT_FILE@.subrange(475, 631), ',')[WIDTH_COLUMN as int] == " ?13"@,
        split_on(UPSERT_FILE@.subrange(475, 631), ',')[HEIGHT_COLUMN as int] == " ?14"@,
        split_on(UPSERT_FILE@.subrange(475, 631), ',')[RESOLUTION_COLUMN as int] == " ?15"@,
        split_on(UPSERT_FILE@.subrange(475, 631), ',')[SOURCE_COLUMN as int] == " ?16"@,
        split_on(UPSERT_FILE@.subrange(475, 631), ',')[RELEASE_GROUP_COLUMN as int] == "\n        ?17"@,
        split_on(UPSERT_FILE@.subrange(475, 631), ',')[SEASON_COLUMN as int] == " ?18"@,
        split_on(UPSERT_FILE@.subrange(475, 631), ',')[EPISODE_COLUMN as int] == " ?19"@,
        split_on(UPSERT_FILE@.subrange(475, 631), ',')[TITLE_GUESS_COLUMN as int] == " ?20"@,
        split_on(UPSERT_FILE@.subrange(475, 631), ',')[ITEM_KEY_COLUMN as int] == " ?21"@,
        split_on(UPSERT_FILE@.subrange(475, 631), ',')[MUSIC_ARTIST_COLUMN as int] == " ?22"@,
        split_on(UPSERT_FILE@.subrange(475, 631), ',')[MUSIC_ALBUM_COLUMN as int] == " ?23"@,
        split_on(UPSERT_FILE@.subrange(475, 631), ',')[MUSIC_TITLE_COLUMN as int] == " ?24"@,
        split_on(UPSERT_FILE@.subrange(475, 631), ',')[MUSIC_ARTIST_SOURCE_COLUMN as int] == " ?25"@,
        split_on(UPSERT_FILE@.subrange(475, 631), ',')[ARTIST_KEY_COLUMN as int] == " ?26"@,
        split_on(UPSERT_FILE@.subrange(475, 631), ',')[SERIES_TITLE_COLUMN as int] == " ?27"@,
        split_on(UPSERT_FILE@.subrange(475, 631), ',')[SERIES_SOURCE_COLUMN as int] == " ?28"@,
        split_on(UPSERT_FILE@.subrange(475, 631), ',')[SERIES_KEY_COLUMN as int] == " ?29"@,
        split_on(UPSERT_FILE@.subrange(475, 631), ',')[FAMILY_KEY_COLUMN as int] == " ?30"@,
        split_on(UPSERT_FILE@.subrange(677, 1988), ',')[FILE_NAME_COLUMN as int - 1] == "\n        file_name = excluded.file_name"@,
        split_on(UPSERT_FILE@.subrange(677, 1988), ',')[ROOT_PATH_COLUMN as int - 1] == "\n        root_path = excluded.root_path"@,
        split_on(UPSERT_FILE@.subrange(677, 1988), ',')[ROOT_KEY_COLUMN as int - 1] == "\n        root_key = excluded.root_key"@,
        split_on(UPSERT_FILE@.subrange(677, 1988), ',')[DIRECTORY_COLUMN as int - 1] == "\n        directory_path = excluded.directory_path"@,
        split_on(UPSERT_FILE@.subrange(677, 1988), ',')[MEDIA_KIND_COLUMN as int - 1] == "\n        media_kind = excluded.media_kind"@,
        split_on(UPSERT_FILE@.subrange(677, 1988), ',')[FILE_SIZE_COLUMN as int - 1] == "\n        file_size = excluded.file_size"@,
        split_on(UPSERT_FILE@.subrange(677, 1988), ',')[MODIFIED_MS_COLUMN as int - 1] == "\n        modified_ms = excluded.modified_ms"@,
        split_on(UPSERT_FILE@.subrange(677, 1988), ',')[DURATION_SECONDS_COLUMN as int - 1] == "\n        duration_seconds = excluded.duration_seconds"@,
        split_on(UPSERT_FILE@.subrange(677, 1988), ',')[CONTAINER_COLUMN as int - 1] == "\n        container = excluded.container"@,
        split_on(UPSERT_FILE@.subrange(677, 1988), ',')[VIDEO_CODEC_COLUMN as int - 1] == "\n        video_codec = excluded.video_codec"@,
        split_on(UPSERT_FILE@.subrange(677, 1988), ',')[AUDIO_CODEC_COLUMN as int - 1] == "\n        audio_codec = excluded.audio_codec"@,
        split_on(UPSERT_FILE@.subrange(677, 1988), ',')[WIDTH_COLUMN as int - 1] == "\n        width = excluded.width"@,
        split_on(UPSERT_FILE@.subrange(677, 1988), ',')[HEIGHT_COLUMN as int - 1] == "\n        height = excluded.height"@,
        split_on(UPSERT_FILE@.subrange(677, 1988), ',')[RESOLUTION_COLUMN as int - 1] == "\n        resolution = excluded.resolution"@,
        split_on(UPSERT_FILE@.subrange(677, 1988), ',')[SOURCE_COLUMN as int - 1] == "\n        source = excluded.source"@,
        split_on(UPSERT_FILE@.subrange(677, 1988), ',')[RELEASE_GROUP_COLUMN as int - 1] == "\n        release_group = excluded.release_group"@,
        split_on(UPSERT_FILE@.subrange(677, 1988), ',')[SEASON_COLUMN as int - 1] == "\n        season_number = excluded.season_number"@,
        split_on(UPSERT_FILE@.subrange(677, 1988), ',')[EPISODE_COLUMN as int - 1] == "\n        episode_number = excluded.episode_number"@,
        split_on(UPSERT_FILE@.subrange(677, 1988), ',')[TITLE_GUESS_COLUMN as int - 1] == "\n        title_guess = excluded.title_guess"@,
        split_on(UPSERT_FILE@.subrange(677, 1988), ',')[ITEM_KEY_COLUMN as int - 1] == "\n        item_key = excluded.item_key"@,
        split_on(UPSERT_FILE@.subrange(677, 1988), ',')[MUSIC_ARTIST_COLUMN as int - 1] == "\n        music_artist = excluded.music_artist"@,
        split_on(UPSERT_FILE@.subrange(677, 1988), ',')[MUSIC_ALBUM_COLUMN as int - 1] == "\n        music_album = excluded.music_album"@,
        split_on(UPSERT_FILE@.subrange(677, 1988), ',')[MUSIC_TITLE_COLUMN as int - 1] == "\n        music_title = excluded.music_title"@,
        split_on(UPSERT_FILE@.subrange(677, 1988), ',')[MUSIC_ARTIST_SOURCE_COLUMN as int - 1] == "\n        music_artist_source = excluded.music_artist_source"@,
        split_on(UPSERT_FILE@.subrange(677, 1988), ',')[ARTIST_KEY_COLUMN as int - 1] == "\n        music_artist_key = excluded.music_artist_key"@,
        split_on(UPSERT_FILE@.subrange(677, 1988), ',')[SERIES_TITLE_COLUMN as int - 1] == "\n        series_title = excluded.series_title"@,
        split_on(UPSERT_FILE@.subrange(677, 1988), ',')[SERIES_SOURCE_COLUMN as int - 1] == "\n        series_source = excluded.series_source"@,
        split_on(UPSERT_FILE@.subrange(677, 1988), ',')[SERIES_KEY_COLUMN as int - 1] == "\n        series_key = excluded.series_key"@,
        split_on(UPSERT_FILE@.subrange(677, 1988), ',')[FAMILY_KEY_COLUMN as int - 1] == "\n        family_key = excluded.family_key"@,
{
    lemma_file_columns();
    lemma_file_parameters();
    lemma_file_changes();
}

/// Each column that is listed for a file gets the field of its name.
pub proof fn files_are_stored_under_their_columns(file: AnalyzedFile)
    ensures
        file_values(file).len() == 30,
        file_values(file)[PATH_COLUMN as int] == ValueModel::Text(file.path@),
        file_values(file)[FILE_NAME_COLUMN as int] == ValueModel::Text(file.file_name@),
        file_values(file)[ROOT_PATH_COLUMN as int] == ValueModel::Text(file.root_path@),
        file_values(file)[ROOT_KEY_COLUMN as int] == ValueModel::Text(file.root_key@),
        file_values(file)[DIRECTORY_COLUMN as int] == ValueModel::Text(file.directory_path@),
        file_values(file)[MEDIA_KIND_COLUMN as int] == ValueModel::Text(file.media_kind@),
        file_values(file)[FILE_SIZE_COLUMN as int] == ValueModel::Integer(file.file_size),
        file_values(file)[MODIFIED_MS_COLUMN as int] == integer_or_null(file.modified_ms),
        file_values(file)[DURATION_SECONDS_COLUMN as int] == real_or_null(file.duration_seconds),
        file_values(file)[CONTAINER_COLUMN as int] == text_or_null(opt_text(file.container)),
        file_values(file)[VIDEO_CODEC_COLUMN as int] == text_or_null(opt_text(file.video_codec)),
        file_values(file)[AUDIO_CODEC_COLUMN as int] == text_or_null(opt_text(file.audio_codec)),
        file_values(file)[WIDTH_COLUMN as int] == integer_or_null(file.width),
        file_values(file)[HEIGHT_COLUMN as int] == integer_or_null(file.height),
        file_values(file)[RESOLUTION_COLUMN as int] == text_or_null(opt_text(file.resolution)),
        file_values(file)[SOURCE_COLUMN as int] == text_or_null(opt_text(file.source)),
        file_values(file)[RELEASE_GROUP_COLUMN as int] == text_or_null(opt_text(file.release_group)),
        file_values(file)[SEASON_COLUMN as int] == integer_or_null(file.season_number),
        file_values(file)[EPISODE_COLUMN as int] == integer_or_null(file.episode_number),
        file_values(file)[TITLE_GUESS_COLUMN as int] == ValueModel::Text(file.title_guess@),
        file_values(file)[ITEM_KEY_COLUMN as int] == ValueModel::Text(file.item_key@),
        file_values(file)[MUSIC_ARTIST_COLUMN as int] == text_or_null(opt_text(file.music_artist)),
        file_values(file)[MUSIC_ALBUM_COLUMN as int] == text_or_null(opt_text(file.music_album)),
        file_values(file)[MUSIC_TITLE_COLUMN as int] == text_or_null(opt_text(file.music_title)),
        file_values(file)[MUSIC_ARTIST_SOURCE_COLUMN as int] == text_or_null(opt_text(file.music_artist_source)),
        file_values(file)[ARTIST_KEY_COLUMN as int] == text_or_null(opt_text(file.music_artist_key)),
        file_values(file)[SERIES_TITLE_COLUMN as int] == text_or_null(opt_text(file.series_title)),
        file_values(file)[SERIES_SOURCE_COLUMN as int] == text_or_null(opt_text(file.series_source)),
        file_values(file)[SERIES_KEY_COLUMN as int] == text_or_null(opt_text(file.series_key)),
        file_values(file)[FAMILY_KEY_COLUMN as int] == text_or_null(opt_text(file.family_key)),
{
}

/// What is stored of a file tells its fields again: files with the same values
/// agree in every field.
pub proof fn stored_files_read_back(a: AnalyzedFile, b: AnalyzedFile)
    requires
        file_values(a) == file_values(b),
    ensures
        a.path@ == b.path@,
        a.file_name@ == b.file_name@,
        a.root_path@ == b.root_path@,
        a.root_key@ == b.root_key@,
        a.directory_path@ == b.directory_path@,
        a.media_kind@ == b.media_kind@,
        a.file_size == b.file_size,
        a.modified_ms == b.modified_ms,
        a.duration_seconds == b.duration_seconds,
        opt_text(a.container) == opt_text(b.container),
        opt_text(a.video_codec) == opt_text(b.video_codec),
        opt_text(a.audio_codec) == opt_text(b.audio_codec),
        a.width == b.width,
        a.height == b.height,
        opt_text(a.resolution) == opt_text(b.resolution),
        opt_text(a.source) == opt_text(b.source),
        opt_text(a.release_group) == opt_text(b.release_group),
        a.season_number == b.season_number,
        a.episode_number == b.episode_number,
        a.title_guess@ == b.title_guess@,
        a.item_key@ == b.item_key@,
        opt_text(a.music_artist) == opt_text(b.music_artist),
        opt_text(a.music_album) == opt_text(b.music_album),
        opt_text(a.music_title) == opt_text(b.music_title),
        opt_text(a.music_artist_source) == opt_text(b.music_artist_source),
        opt_text(a.music_artist_key) == opt_text(b.music_artist_key),
        opt_text(a.series_title) == opt_text(b.series_title),
        opt_text(a.series_source) == opt_text(b.series_source),
        opt_text(a.series_key) == opt_text(b.series_key),
        opt_text(a.family_key) == opt_text(b.family_key),
{
    files_are_stored_under_their_columns(a);
    files_are_stored_under_their_columns(b);
}

// ---------------------------------------------------------------------------
// Files that were left out
// ---------------------------------------------------------------------------

pub const SKIP_SCAN_ID: usize = 0;

pub const SKIP_PATH: usize = 1;

pub const SKIP_FILE_NAME: usize = 2;

pub const SKIP_ROOT_PATH: usize = 3;

pub const SKIP_ROOT_KEY: usize = 4;

pub const SKIP_REASON: usize = 5;

pub const SKIP_DETAIL: usize = 6;

pub const SKIP_IS_SHORT_VIDEO: usize = 7;

pub const SKIP_FILE_SIZE: usize = 8;

pub const SKIP_MODIFIED_MS: usize = 9;

/// The columns that the text of the statement for a file that was left out lists.
pub open spec fn skip_columns() -> Seq<Seq<char>> {
    seq![
        "\n          scan_id"@,
        " path"@,
        " file_name"@,
        " root_path"@,
        " root_key"@,
        " reason"@,
        " detail"@,
        "\n          is_short_video"@,
        " file_size"@,
        " modified_ms"@,
    ]
}

#[verifier::spinoff_prover]
#[verifier::rlimit(60)]
proof fn lemma_skip_columns()
    ensures
        split_on(INSERT_SKIP@.subrange(33, 155), ',') == skip_columns(),
{
    let text = INSERT_SKIP@.subrange(33, 155);
    let parts = skip_columns();
    let comma = seq![','];
    reveal_strlit(r#"
        INSERT INTO scan_skips (
          scan_id, path, file_name, root_path, root_key, reason, detail,
          is_short_video, file_size, modified_ms
        )
        VALUES (?1, ?2, ?3, ?4, ?5, ?6, ?7, ?8, ?9, ?10)
        "#);
    assert(INSERT_SKIP@.len() == 231);
    reveal_strlit("\n          scan_id");
    assert(text.subrange(0, 18) =~= "\n          scan_id"@);
    assert(!"\n          scan_id"@.contains(','));
    assert(parts.take(1) =~= seq![parts[0]]);
    assert(text.take(18) =~= text.subrange(0, 18));
    assert(join(parts.take(1), comma) == text.take(18));
    reveal_strlit(" path");
    assert(text.subrange(19, 24) =~= " path"@);
    assert(!" path"@.contains(','));
    assert(text[18] == ',');
    lemma_join_step(text, parts, 1, 18, 24);
    reveal_strlit(" file_name");
    assert(text.subrange(25, 35) =~= " file_name"@);
    assert(!" file_name"@.contains(','));
    assert(text[24] == ',');
    lemma_join_step(text, parts, 2, 24, 35);
    reveal_strlit(" root_path");
    assert(text.subrange(36, 46) =~= " root_path"@);
    assert(!" root_path"@.contains(','));
    assert(text[35] == ',');
    lemma_join_step(text, parts, 3, 35, 46);
    reveal_strlit(" root_key");
    assert(text.subrange(47, 56) =~= " root_key"@);
    assert(!" root_key"@.contains(','));
    assert(text[46] == ',');
    lemma_join_step(text, parts, 4, 46, 56);
    reveal_strlit(" reason");
    assert(text.subrange(57, 64) =~= " reason"@);
    assert(!" reason"@.contains(','));
    assert(text[56] == ',');
    lemma_join_step(text, parts, 5, 56, 64);
    reveal_strlit(" detail");
    assert(text.subrange(65, 72) =~= " detail"@);
    assert(!" detail"@.contains(','));
    assert(text[64] == ',');
    lemma_join_step(text, parts, 6, 64, 72);
    reveal_strlit("\n          is_short_video");
    assert(text.subrange(73, 98) =~= "\n          is_short_video"@);
    assert(!"\n          is_short_video"@.contains(','));
    assert(text[72] == ',');
    lemma_join_step(text, parts, 7, 72, 98);
    reveal_strlit(" file_size");
    assert(text.subrange(99, 109) =~= " file_size"@);
    assert(!" file_size"@.contains(','));
    assert(text[98] == ',');
    lemma_join_step(text, parts, 8, 98, 109);
    reveal_strlit(" modified_ms");
    assert(text.subrange(110, 122) =~= " modified_ms"@);
    assert(!" modified_ms"@.contains(','));
    assert(text[109] == ',');
    lemma_join_step(text, parts, 9, 109, 122);
    assert(parts.take(10) =~= parts);
    assert(text.take(122) =~= text);
    assert forall|i: int| 0 <= i < parts.len() implies !(#[trigger] parts[i]).contains(',') by {
        assert(0 <= i < 10);
    }
    joined_parts_are_found_again(parts, ',');
}

/// The parameters that it lists.
pub open spec fn skip_parameters() -> Seq<Seq<char>> {
    seq![
        "?1"@,
        " ?2"@,
        " ?3"@,
        " ?4"@,
        " ?5"@,
        " ?6"@,
        " ?7"@,
        " ?8"@,
        " ?9"@,
        " ?10"@,
    ]
}

#[verifier::spinoff_prover]
#[verifier::rlimit(60)]
proof fn lemma_skip_parameters()
    ensures
        split_on(INSERT_SKIP@.subrange(182, 221), ',') == skip_parameters(),
{
    let text = INSERT_SKIP@.subrange(182, 221);
    let parts = skip_parameters();
    let comma = seq![','];
    reveal_strlit(r#"
        INSERT INTO scan_skips (
          scan_id, path, file_name, root_path, root_key, reason, detail,
          is_short_video, file_size, modified_ms
        )
        VALUES (?1, ?2, ?3, ?4, ?5, ?6, ?7, ?8, ?9, ?10)
        "#);
    assert(INSERT_SKIP@.len() == 231);
    reveal_strlit("?1");
    assert(text.subrange(0, 2) =~= "?1"@);
    assert(!"?1"@.contains(','));
    assert(parts.take(1) =~= seq![parts[0]]);
    assert(text.take(2) =~= text.subrange(0, 2));
    assert(join(parts.take(1), comma) == text.take(2));
    reveal_strlit(" ?2");
    assert(text.subrange(3, 6) =~= " ?2"@);
    assert(!" ?2"@.contains(','));
    assert(text[2] == ',');
    lemma_join_step(text, parts, 1, 2, 6);
    reveal_strlit(" ?3");
    assert(text.subrange(7, 10) =~= " ?3"@);
    assert(!" ?3"@.contains(','));
    assert(text[6] == ',');
    lemma_join_step(text, parts, 2, 6, 10);
    reveal_strlit(" ?4");
    assert(text.subrange(11, 14) =~= " ?4"@);
    assert(!" ?4"@.contains(','));
    assert(text[10] == ',');
    lemma_join_step(text, parts, 3, 10, 14);
    reveal_strlit(" ?5");
    assert(text.subrange(15, 18) =~= " ?5"@);
    assert(!" ?5"@.contains(','));
    assert(text[14] == ',');
    lemma_join_step(text, parts, 4, 14, 18);
    reveal_strlit(" ?6");
    assert(text.subrange(19, 22) =~= " ?6"@);
    assert(!" ?6"@.contains(','));
    assert(text[18] == ',');
    lemma_join_step(text, parts, 5, 18, 22);
    reveal_strlit(" ?7");
    assert(text.subrange(23, 26) =~= " ?7"@);
    assert(!" ?7"@.contains(','));
    assert(text[22] == ',');
    lemma_join_step(text, parts, 6, 22, 26);
    reveal_strlit(" ?8");
    assert(text.subrange(27, 30) =~= " ?8"@);
    assert(!" ?8"@.contains(','));
    assert(text[26] == ',');
    lemma_join_step(text, parts, 7, 26, 30);
    reveal_strlit(" ?9");
    assert(text.subrange(31, 34) =~= " ?9"@);
    assert(!" ?9"@.contains(','));
    assert(text[30] == ',');
    lemma_join_step(text, parts, 8, 30, 34);
    reveal_strlit(" ?10");
    assert(text.subrange(35, 39) =~= " ?10"@);
    assert(!" ?10"@.contains(','));
    assert(text[34] == ',');
    lemma_join_step(text, parts, 9, 34, 39);
    assert(parts.take(10) =~= parts);
    assert(text.take(39) =~= text);
    assert forall|i: int| 0 <= i < parts.len() implies !(#[trigger] parts[i]).contains(',') by {
        assert(0 <= i < 10);
    }
    joined_parts_are_found_again(parts, ',');
}

/// The text of the statement for a file that was left out lists its columns and
/// parameters in the order of the named columns.
pub proof fn the_text_lists_the_columns_of_a_skip()
    ensures
        split_on(INSERT_SKIP@.subrange(33, 155), ',')[SKIP_SCAN_ID as int] == "\n          scan_id"@,
        split_on(INSERT_SKIP@.subrange(182, 221), ',')[SKIP_SCAN_ID as int] == "?1"@,
        split_on(INSERT_SKIP@.subrange(33, 155), ',')[SKIP_PATH as int] == " path"@,
        split_on(INSERT_SKIP@.subrange(182, 221), ',')[SKIP_PATH as int] == " ?2"@,
        split_on(INSERT_SKIP@.subrange(33, 155), ',')[SKIP_FILE_NAME as int] == " file_name"@,
        split_on(INSERT_SKIP@.subrange(182, 221), ',')[SKIP_FILE_NAME as int] == " ?3"@,
        split_on(INSERT_SKIP@.subrange(33, 155), ',')[SKIP_ROOT_PATH as int] == " root_path"@,
        split_on(INSERT_SKIP@.subrange(182, 221), ',')[SKIP_ROOT_PATH as int] == " ?4"@,
        split_on(INSERT_SKIP@.subrange(33, 155), ',')[SKIP_ROOT_KEY as int] == " root_key"@,
        split_on(INSERT_SKIP@.subrange(182, 221), ',')[SKIP_ROOT_KEY as int] == " ?5"@,
        split_on(INSERT_SKIP@.subrange(33, 155), ',')[SKIP_REASON as int] == " reason"@,
        split_on(INSERT_SKIP@.subrange(182, 221), ',')[SKIP_REASON as int] == " ?6"@,
        split_on(INSERT_SKIP@.subrange(33, 155), ',')[SKIP_DETAIL as int] == " detail"@,
        split_on(INSERT_SKIP@.subrange(182, 221), ',')[SKIP_DETAIL as int] == " ?7"@,
        split_on(INSERT_SKIP@.subrange(33, 155), ',')[SKIP_IS_SHORT_VIDEO as int] == "\n          is_short_video"@,
        split_on(INSERT_SKIP@.subrange(182, 221), ',')[SKIP_IS_SHORT_VIDEO as int] == " ?8"@,
        split_on(INSERT_SKIP@.subrange(33, 155), ',')[SKIP_FILE_SIZE as int] == " file_size"@,
        split_on(INSERT_SKIP@.subrange(182, 221), ',')[SKIP_FILE_SIZE as int] == " ?9"@,
        split_on(INSERT_SKIP@.subrange(33, 155), ',')[SKIP_MODIFIED_MS as int] == " modified_ms"@,
        split_on(INSERT_SKIP@.subrange(182, 221), ',')[SKIP_MODIFIED_MS as int] == " ?10"@,
{
    lemma_skip_columns();
    lemma_skip_parameters();
}

/// Each column that is listed for a file that was left out gets what belongs
/// there: the number of the scan, the path and its last part, the root, why it
/// was left out, whether it is a short video, and what the file system tells.
pub proof fn skips_are_stored_under_their_columns(
    scan_id: i64,
    skip: SkipModel,
    metadata: Option<FileMetadata>,
    windows: bool,
)
    ensures
        ({
            let values = skip_statement(scan_id, skip, metadata, windows).values;
            &&& values.len() == 10
            &&& values[SKIP_SCAN_ID as int] == ValueModel::Integer(scan_id)
            &&& values[SKIP_PATH as int] == ValueModel::Text(skip.path)
            &&& path_file_name(skip.path, windows) matches Some(name)
                ==> values[SKIP_FILE_NAME as int] == ValueModel::Text(name)
            &&& path_file_name(skip.path, windows) is None ==> values[SKIP_FILE_NAME as int]
                == ValueModel::Text(skip.path)
            &&& values[SKIP_ROOT_PATH as int] == ValueModel::Text(skip.root_path)
            &&& values[SKIP_ROOT_KEY as int] == ValueModel::Text(skip.root_key)
            &&& values[SKIP_REASON as int] == ValueModel::Text(skip.reason)
            &&& values[SKIP_DETAIL as int] == ValueModel::Text(skip.detail)
            &&& skip.is_short_video ==> values[SKIP_IS_SHORT_VIDEO as int] == ValueModel::Integer(1)
            &&& !skip.is_short_video ==> values[SKIP_IS_SHORT_VIDEO as int] == ValueModel::Integer(0)
            &&& metadata matches Some(found) ==> {
                &&& values[SKIP_FILE_SIZE as int] == ValueModel::Integer(found.file_size)
                &&& values[SKIP_MODIFIED_MS as int] == integer_or_null(found.modified_ms)
            }
            &&& metadata is None ==> {
                &&& values[SKIP_FILE_SIZE as int] is Null
                &&& values[SKIP_MODIFIED_MS as int] is Null
            }
        }),
{
}

/// A value that is there is stored as it is, and one that is not as nothing.
pub proof fn optional_values_are_stored(
    text: Option<Seq<char>>,
    number: Option<i64>,
    seconds: Option<Seconds>,
)
    ensures
        text is Some ==> text_or_null(text) == ValueModel::Text(text->0),
        text is None ==> text_or_null(text) is Null,
        number is Some ==> integer_or_null(number) == ValueModel::Integer(number->0),
        number is None ==> integer_or_null(number) is Null,
        seconds is Some ==> real_or_null(seconds) == ValueModel::Real(seconds->0),
        seconds is None ==> real_or_null(seconds) is Null,
{
}

// ---------------------------------------------------------------------------
// Statements
// ---------------------------------------------------------------------------

/// What can be read of a value and of a statement is what they hold.
pub proof fn values_are_what_they_hold(text: String, number: i64, seconds: Seconds, change: SqlStatement, i: int)
    requires
        0 <= i < change.values@.len(),
    ensures
        SqlValue::Null.model() is Null,
        SqlValue::Integer(number).model() == ValueModel::Integer(number),
        SqlValue::Real(seconds).model() == ValueModel::Real(seconds),
        SqlValue::Text(text).model() == ValueModel::Text(text@),
        change.model().sql == change.sql@,
        change.model().values.len() == change.values@.len(),
        change.model().values[i] == change.values@[i].model(),
{
}

/// A file is stored by the statement for files with its values.
pub proof fn files_have_their_statement(file: AnalyzedFile)
    ensures
        file_statement(file).sql == UPSERT_FILE@,
        file_statement(file).values == file_values(file),
{
}

/// A root is stored by removing its rows, then storing its files, each in its
/// order, and then those that were left out, each in its order and with its own
/// metadata.
pub proof fn roots_are_stored_in_order(
    scan_id: i64,
    root_key: Seq<char>,
    files: Seq<AnalyzedFile>,
    skips: Seq<PendingSkip>,
    metadata: Seq<Option<FileMetadata>>,
    windows: bool,
    i: int,
)
    ensures
        ({
            let all = root_statements(scan_id, root_key, files, skips, metadata, windows);
            &&& all.len() == 1 + files.len() + skips.len()
            &&& all[0].sql == DELETE_ROOT_FILES@
            &&& all[0].values.len() == 1
            &&& all[0].values[0] == ValueModel::Text(root_key)
            &&& 0 <= i < files.len() ==> all[1 + i].sql == UPSERT_FILE@ && all[1 + i].values
                == file_values(files[i])
            &&& 0 <= i < skips.len() ==> {
                &&& all[1 + files.len() + i].sql == INSERT_SKIP@
                &&& all[1 + files.len() + i] == skip_statement(
                    scan_id,
                    skips[i].model(),
                    metadata[i],
                    windows,
                )
                &&& skip_statements(scan_id, skips, metadata, windows)[i] == skip_statement(
                    scan_id,
                    skips[i].model(),
                    metadata[i],
                    windows,
                )
            }
        }),
{
}

// ---------------------------------------------------------------------------
// Scans
// ---------------------------------------------------------------------------

/// The columns that the text of the statement for a scan that begins lists.
pub open spec fn run_columns() -> Seq<Seq<char>> {
    seq![
        "\n          started_at_ms"@,
        " completed_at_ms"@,
        " duration_ms"@,
        " scanned_files"@,
        " imported_files"@,
        "\n          skipped_files"@,
        " skipped_short_files"@,
        " recorded_directories"@,
        " ffprobe_missing"@,
        "\n          status"@,
        " paths_json"@,
        " excluded_paths_json"@,
        " failed_roots_json"@,
    ]
}

#[verifier::spinoff_prover]
#[verifier::rlimit(60)]
proof fn lemma_run_columns()
    ensures
        split_on(INSERT_SCAN_RUN@.subrange(32, 272), ',') == run_columns(),
{
    let text = INSERT_SCAN_RUN@.subrange(32, 272);
    let parts = run_columns();
    let comma = seq![','];
    reveal_strlit(r#"
        INSERT INTO scan_runs (
          started_at_ms, completed_at_ms, duration_ms, scanned_files, imported_files,
          skipped_files, skipped_short_files, recorded_directories, ffprobe_missing,
          status, paths_json, excluded_paths_json, failed_roots_json
        )
        VALUES (?1, 0, 0, 0, 0, 0, 0, 0, 0, 'running', ?2, ?3, '[]')
        "#);
    assert(INSERT_SCAN_RUN@.len() == 360);
    reveal_strlit("\n          started_at_ms");
    assert(text.subrange(0, 24) =~= "\n          started_at_ms"@);
    assert(!"\n          started_at_ms"@.contains(','));
    assert(parts.take(1) =~= seq![parts[0]]);
    assert(text.take(24) =~= text.subrange(0, 24));
    assert(join(parts.take(1), comma) == text.take(24));
    reveal_strlit(" completed_at_ms");
    assert(text.subrange(25, 41) =~= " completed_at_ms"@);
    assert(!" completed_at_ms"@.contains(','));
    assert(text[24] == ',');
    lemma_join_step(text, parts, 1, 24, 41);
    reveal_strlit(" duration_ms");
    assert(text.subrange(42, 54) =~= " duration_ms"@);
    assert(!" duration_ms"@.contains(','));
    assert(text[41] == ',');
    lemma_join_step(text, parts, 2, 41, 54);
    reveal_strlit(" scanned_files");
    assert(text.subrange(55, 69) =~= " scanned_files"@);
    assert(!" scanned_files"@.contains(','));
    assert(text[54] == ',');
    lemma_join_step(text, parts, 3, 54, 69);
    reveal_strlit(" imported_files");
    assert(text.subrange(70, 85) =~= " imported_files"@);
    assert(!" imported_files"@.contains(','));
    assert(text[69] == ',');
    lemma_join_step(text, parts, 4, 69, 85);
    reveal_strlit("\n          skipped_files");
    assert(text.subrange(86, 110) =~= "\n          skipped_files"@);
    assert(!"\n          skipped_files"@.contains(','));
    assert(text[85] == ',');
    lemma_join_step(text, parts, 5, 85, 110);
    reveal_strlit(" skipped_short_files");
    assert(text.subrange(111, 131) =~= " skipped_short_files"@);
    assert(!" skipped_short_files"@.contains(','));
    assert(text[110] == ',');
    lemma_join_step(text, parts, 6, 110, 131);
    reveal_strlit(" recorded_directories");
    assert(text.subrange(132, 153) =~= " recorded_directories"@);
    assert(!" recorded_directories"@.contains(','));
    assert(text[131] == ',');
    lemma_join_step(text, parts, 7, 131, 153);
    reveal_strlit(" ffprobe_missing");
    assert(text.subrange(154, 170) =~= " ffprobe_missing"@);
    assert(!" ffprobe_missing"@.contains(','));
    assert(text[153] == ',');
    lemma_join_step(text, parts, 8, 153, 170);
    reveal_strlit("\n          status");
    assert(text.subrange(171, 188) =~= "\n          status"@);
    assert(!"\n          status"@.contains(','));
    assert(text[170] == ',');
    lemma_join_step(text, parts, 9, 170, 188);
    reveal_strlit(" paths_json");
    assert(text.subrange(189, 200) =~= " paths_json"@);
    assert(!" paths_json"@.contains(','));
    assert(text[188] == ',');
    lemma_join_step(text, parts, 10, 188, 200);
    reveal_strlit(" excluded_paths_json");
    assert(text.subrange(201, 221) =~= " excluded_paths_json"@);
    assert(!" excluded_paths_json"@.contains(','));
    assert(text[200] == ',');
    lemma_join_step(text, parts, 11, 200, 221);
    reveal_strlit(" failed_roots_json");
    assert(text.subrange(222, 240) =~= " failed_roots_json"@);
    assert(!" failed_roots_json"@.contains(','));
    assert(text[221] == ',');
    lemma_join_step(text, parts, 12, 221, 240);
    assert(parts.take(13) =~= parts);
    assert(text.take(240) =~= text);
    assert forall|i: int| 0 <= i < parts.len() implies !(#[trigger] parts[i]).contains(',') by {
        assert(0 <= i < 13);
    }
    joined_parts_are_found_again(parts, ',');
}

/// What it puts into them.
pub open spec fn run_parameters() -> Seq<Seq<char>> {
    seq![
        "?1"@,
        " 0"@,
        " 0"@,
        " 0"@,
        " 0"@,
        " 0"@,
        " 0"@,
        " 0"@,
        " 0"@,
        " 'running'"@,
        " ?2"@,
        " ?3"@,
        " '[]'"@,
    ]
}

#[verifier::spinoff_prover]
#[verifier::rlimit(60)]
proof fn lemma_run_parameters()
    ensures
        split_on(INSERT_SCAN_RUN@.subrange(299, 350), ',') == run_parameters(),
{
    let text = INSERT_SCAN_RUN@.subrange(299, 350);
    let parts = run_parameters();
    let comma = seq![','];
    reveal_strlit(r#"
        INSERT INTO scan_runs (
          started_at_ms, completed_at_ms, duration_ms, scanned_files, imported_files,
          skipped_files, skipped_short_files, recorded_directories, ffprobe_missing,
          status, paths_json, excluded_paths_json, failed_roots_json
        )
        VALUES (?1, 0, 0, 0, 0, 0, 0, 0, 0, 'running', ?2, ?3, '[]')
        "#);
    assert(INSERT_SCAN_RUN@.len() == 360);
    reveal_strlit("?1");
    assert(text.subrange(0, 2) =~= "?1"@);
    assert(!"?1"@.contains(','));
    assert(parts.take(1) =~= seq![parts[0]]);
    assert(text.take(2) =~= text.subrange(0, 2));
    assert(join(parts.take(1), comma) == text.take(2));
    reveal_strlit(" 0");
    assert(text.subrange(3, 5) =~= " 0"@);
    assert(!" 0"@.contains(','));
    assert(text[2] == ',');
    lemma_join_step(text, parts, 1, 2, 5);
    reveal_strlit(" 0");
    assert(text.subrange(6, 8) =~= " 0"@);
    assert(!" 0"@.contains(','));
    assert(text[5] == ',');
    lemma_join_step(text, parts, 2, 5, 8);
    reveal_strlit(" 0");
    assert(text.subrange(9, 11) =~= " 0"@);
    assert(!" 0"@.contains(','));
    assert(text[8] == ',');
    lemma_join_step(text, parts, 3, 8, 11);
    reveal_strlit(" 0");
    assert(text.subrange(12, 14) =~= " 0"@);
    assert(!" 0"@.contains(','));
    assert(text[11] == ',');
    lemma_join_step(text, parts, 4, 11, 14);
    reveal_strlit(" 0");
    assert(text.subrange(15, 17) =~= " 0"@);
    assert(!" 0"@.contains(','));
    assert(text[14] == ',');
    lemma_join_step(text, parts, 5, 14, 17);
    reveal_strlit(" 0");
    assert(text.subrange(18, 20) =~= " 0"@);
    assert(!" 0"@.contains(','));
    assert(text[17] == ',');
    lemma_join_step(text, parts, 6, 17, 20);
    reveal_strlit(" 0");
    assert(text.subrange(21, 23) =~= " 0"@);
    assert(!" 0"@.contains(','));
    assert(text[20] == ',');
    lemma_join_step(text, parts, 7, 20, 23);
    reveal_strlit(" 0");
    assert(text.subrange(24, 26) =~= " 0"@);
    assert(!" 0"@.contains(','));
    assert(text[23] == ',');
    lemma_join_step(text, parts, 8, 23, 26);
    reveal_strlit(" 'running'");
    assert(text.subrange(27, 37) =~= " 'running'"@);
    assert(!" 'running'"@.contains(','));
    assert(text[26] == ',');
    lemma_join_step(text, parts, 9, 26, 37);
    reveal_strlit(" ?2");
    assert(text.subrange(38, 41) =~= " ?2"@);
    assert(!" ?2"@.contains(','));
    assert(text[37] == ',');
    lemma_join_step(text, parts, 10, 37, 41);
    reveal_strlit(" ?3");
    assert(text.subrange(42, 45) =~= " ?3"@);
    assert(!" ?3"@.contains(','));
    assert(text[41] == ',');
    lemma_join_step(text, parts, 11, 41, 45);
    reveal_strlit(" '[]'");
    assert(text.subrange(46, 51) =~= " '[]'"@);
    assert(!" '[]'"@.contains(','));
    assert(text[45] == ',');
    lemma_join_step(text, parts, 12, 45, 51);
    assert(parts.take(13) =~= parts);
    assert(text.take(51) =~= text);
    assert forall|i: int| 0 <= i < parts.len() implies !(#[trigger] parts[i]).contains(',') by {
        assert(0 <= i < 13);
    }
    joined_parts_are_found_again(parts, ',');
}

/// A scan that begins is stored as running, with its start, its directories and
/// the directories that it leaves out, and zero for everything else.
pub proof fn the_text_stores_a_scan_that_begins(
    started_at_ms: i64,
    paths_json: Seq<char>,
    excluded_paths_json: Seq<char>,
)
    ensures
        split_on(INSERT_SCAN_RUN@.subrange(32, 272), ',')[0] == "\n          started_at_ms"@ && split_on(
            INSERT_SCAN_RUN@.subrange(299, 350),
            ',',
        )[0] == "?1"@,
        split_on(INSERT_SCAN_RUN@.subrange(32, 272), ',')[1] == " completed_at_ms"@ && split_on(
            INSERT_SCAN_RUN@.subrange(299, 350),
            ',',
        )[1] == " 0"@,
        split_on(INSERT_SCAN_RUN@.subrange(32, 272), ',')[2] == " duration_ms"@ && split_on(
            INSERT_SCAN_RUN@.subrange(299, 350),
            ',',
        )[2] == " 0"@,
        split_on(INSERT_SCAN_RUN@.subrange(32, 272), ',')[3] == " scanned_files"@ && split_on(
            INSERT_SCAN_RUN@.subrange(299, 350),
            ',',
        )[3] == " 0"@,
        split_on(INSERT_SCAN_RUN@.subrange(32, 272), ',')[4] == " imported_files"@ && split_on(
            INSERT_SCAN_RUN@.subrange(299, 350),
            ',',
        )[4] == " 0"@,
        split_on(INSERT_SCAN_RUN@.subrange(32, 272), ',')[5] == "\n          skipped_files"@ && split_on(
            INSERT_SCAN_RUN@.subrange(299, 350),
            ',',
        )[5] == " 0"@,
        split_on(INSERT_SCAN_RUN@.subrange(32, 272), ',')[6] == " skipped_short_files"@ && split_on(
            INSERT_SCAN_RUN@.subrange(299, 350),
            ',',
        )[6] == " 0"@,
        split_on(INSERT_SCAN_RUN@.subrange(32, 272), ',')[7] == " recorded_directories"@ && split_on(
            INSERT_SCAN_RUN@.subrange(299, 350),
            ',',
        )[7] == " 0"@,
        split_on(INSERT_SCAN_RUN@.subrange(32, 272), ',')[8] == " ffprobe_missing"@ && split_on(
            INSERT_SCAN_RUN@.subrange(299, 350),
            ',',
        )[8] == " 0"@,
        split_on(INSERT_SCAN_RUN@.subrange(32, 272), ',')[9] == "\n          status"@ && split_on(
            INSERT_SCAN_RUN@.subrange(299, 350),
            ',',
        )[9] == " 'running'"@,
        split_on(INSERT_SCAN_RUN@.subrange(32, 272), ',')[10] == " paths_json"@ && split_on(
            INSERT_SCAN_RUN@.subrange(299, 350),
            ',',
        )[10] == " ?2"@,
        split_on(INSERT_SCAN_RUN@.subrange(32, 272), ',')[11] == " excluded_paths_json"@ && split_on(
            INSERT_SCAN_RUN@.subrange(299, 350),
            ',',
        )[11] == " ?3"@,
        split_on(INSERT_SCAN_RUN@.subrange(32, 272), ',')[12] == " failed_roots_json"@ && split_on(
            INSERT_SCAN_RUN@.subrange(299, 350),
            ',',
        )[12] == " '[]'"@,
        run_statement(started_at_ms, paths_json, excluded_paths_json).sql == INSERT_SCAN_RUN@,
        run_statement(started_at_ms, paths_json, excluded_paths_json).values[0]
            == ValueModel::Integer(started_at_ms),
        run_statement(started_at_ms, paths_json, excluded_paths_json).values[1] == ValueModel::Text(
            paths_json,
        ),
        run_statement(started_at_ms, paths_json, excluded_paths_json).values[2] == ValueModel::Text(
            excluded_paths_json,
        ),
{
    lemma_run_columns();
    lemma_run_parameters();
}

/// The changes that the text of the statement for a scan that ended makes.
pub open spec fn run_changes() -> Seq<Seq<char>> {
    seq![
        " completed_at_ms = ?2"@,
        "\n                duration_ms = ?3"@,
        "\n                scanned_files = ?4"@,
        "\n                imported_files = ?5"@,
        "\n                skipped_files = ?6"@,
        "\n                skipped_short_files = ?7"@,
        "\n                recorded_directories = ?8"@,
        "\n                ffprobe_missing = ?9"@,
        "\n                status = ?10"@,
        "\n                error_message = ?11"@,
        "\n                failed_roots_json = ?12"@,
    ]
}

#[verifier::spinoff_prover]
#[verifier::rlimit(60)]
proof fn lemma_run_changes()
    ensures
        split_on(UPDATE_SCAN_RUN@.subrange(45, 440), ',') == run_changes(),
{
    let text = UPDATE_SCAN_RUN@.subrange(45, 440);
    let parts = run_changes();
    let comma = seq![','];
    reveal_strlit(r#"
            UPDATE scan_runs
            SET completed_at_ms = ?2,
                duration_ms = ?3,
                scanned_files = ?4,
                imported_files = ?5,
                skipped_files = ?6,
                skipped_short_files = ?7,
                recorded_directories = ?8,
                ffprobe_missing = ?9,
                status = ?10,
                error_message = ?11,
                failed_roots_json = ?12
            WHERE id = ?1
            "#);
    assert(UPDATE_SCAN_RUN@.len() == 479);
    reveal_strlit(" completed_at_ms = ?2");
    assert(text.subrange(0, 21) =~= " completed_at_ms = ?2"@);
    assert(!" completed_at_ms = ?2"@.contains(','));
    assert(parts.take(1) =~= seq![parts[0]]);
    assert(text.take(21) =~= text.subrange(0, 21));
    assert(join(parts.take(1), comma) == text.take(21));
    reveal_strlit("\n                duration_ms = ?3");
    assert(text.subrange(22, 55) =~= "\n                duration_ms = ?3"@);
    assert(!"\n                duration_ms = ?3"@.contains(','));
    assert(text[21] == ',');
    lemma_join_step(text, parts, 1, 21, 55);
    reveal_strlit("\n                scanned_files = ?4");
    assert(text.subrange(56, 91) =~= "\n                scanned_files = ?4"@);
    assert(!"\n                scanned_files = ?4"@.contains(','));
    assert(text[55] == ',');
    lemma_join_step(text, parts, 2, 55, 91);
    reveal_strlit("\n                imported_files = ?5");
    assert(text.subrange(92, 128) =~= "\n                imported_files = ?5"@);
    assert(!"\n                imported_files = ?5"@.contains(','));
    assert(text[91] == ',');
    lemma_join_step(text, parts, 3, 91, 128);
    reveal_strlit("\n                skipped_files = ?6");
    assert(text.subrange(129, 164) =~= "\n                skipped_files = ?6"@);
    assert(!"\n                skipped_files = ?6"@.contains(','));
    assert(text[128] == ',');
    lemma_join_step(text, parts, 4, 128, 164);
    reveal_strlit("\n                skipped_short_files = ?7");
    assert(text.subrange(165, 206) =~= "\n                skipped_short_files = ?7"@);
    assert(!"\n                skipped_short_files = ?7"@.contains(','));
    assert(text[164] == ',');
    lemma_join_step(text, parts, 5, 164, 206);
    reveal_strlit("\n                recorded_directories = ?8");
    assert(text.subrange(207, 249) =~= "\n                recorded_directories = ?8"@);
    assert(!"\n                recorded_directories = ?8"@.contains(','));
    assert(text[206] == ',');
    lemma_join_step(text, parts, 6, 206, 249);
    reveal_strlit("\n                ffprobe_missing = ?9");
    assert(text.subrange(250, 287) =~= "\n                ffprobe_missing = ?9"@);
    assert(!"\n                ffprobe_missing = ?9"@.contains(','));
    assert(text[249] == ',');
    lemma_join_step(text, parts, 7, 249, 287);
    reveal_strlit("\n                status = ?10");
    assert(text.subrange(288, 317) =~= "\n                status = ?10"@);
    assert(!"\n                status = ?10"@.contains(','));
    assert(text[287] == ',');
    lemma_join_step(text, parts, 8, 287, 317);
    reveal_strlit("\n                error_message = ?11");
    assert(text.subrange(318, 354) =~= "\n                error_message = ?11"@);
    assert(!"\n                error_message = ?11"@.contains(','));
    assert(text[317] == ',');
    lemma_join_step(text, parts, 9, 317, 354);
    reveal_strlit("\n                failed_roots_json = ?12");
    assert(text.subrange(355, 395) =~= "\n                failed_roots_json = ?12"@);
    assert(!"\n                failed_roots_json = ?12"@.contains(','));
    assert(text[354] == ',');
    lemma_join_step(text, parts, 10, 354, 395);
    assert(parts.take(11) =~= parts);
    assert(text.take(395) =~= text);
    assert forall|i: int| 0 <= i < parts.len() implies !(#[trigger] parts[i]).contains(',') by {
        assert(0 <= i < 11);
    }
    joined_parts_are_found_again(parts, ',');
}

/// A scan that ended is stored under its number: parameter by parameter the
/// text names the column and the value is the part of the summary with its name.
pub proof fn the_text_stores_a_scan_that_ended(
    summary: ScanSummary,
    error_message: Option<Seq<char>>,
    failed_roots_json: Seq<char>,
)
    ensures
        summary_values(summary, error_message, failed_roots_json).len() == 12,
        summary_values(summary, error_message, failed_roots_json)[0] == ValueModel::Integer(
            summary.scan_id,
        ),
        split_on(UPDATE_SCAN_RUN@.subrange(45, 440), ',')[0] == " completed_at_ms = ?2"@,
        summary_values(summary, error_message, failed_roots_json)[1] == ValueModel::Integer(summary.completed_at_ms),
        split_on(UPDATE_SCAN_RUN@.subrange(45, 440), ',')[1] == "\n                duration_ms = ?3"@,
        summary_values(summary, error_message, failed_roots_json)[2] == ValueModel::Integer(summary.duration_ms),
        split_on(UPDATE_SCAN_RUN@.subrange(45, 440), ',')[2] == "\n                scanned_files = ?4"@,
        summary_values(summary, error_message, failed_roots_json)[3] == ValueModel::Integer(summary.scanned_files as i64),
        split_on(UPDATE_SCAN_RUN@.subrange(45, 440), ',')[3] == "\n                imported_files = ?5"@,
        summary_values(summary, error_message, failed_roots_json)[4] == ValueModel::Integer(summary.imported_files as i64),
        split_on(UPDATE_SCAN_RUN@.subrange(45, 440), ',')[4] == "\n                skipped_files = ?6"@,
        summary_values(summary, error_message, failed_roots_json)[5] == ValueModel::Integer(summary.skipped_files as i64),
        split_on(UPDATE_SCAN_RUN@.subrange(45, 440), ',')[5] == "\n                skipped_short_files = ?7"@,
        summary_values(summary, error_message, failed_roots_json)[6] == ValueModel::Integer(summary.skipped_short_files as i64),
        split_on(UPDATE_SCAN_RUN@.subrange(45, 440), ',')[6] == "\n                recorded_directories = ?8"@,
        summary_values(summary, error_message, failed_roots_json)[7] == ValueModel::Integer(summary.recorded_directories as i64),
        split_on(UPDATE_SCAN_RUN@.subrange(45, 440), ',')[7] == "\n                ffprobe_missing = ?9"@,
        summary_values(summary, error_message, failed_roots_json)[8] == ValueModel::Integer(
                if summary.ffprobe_missing {
                    1
                } else {
                    0
                },
            ),
        split_on(UPDATE_SCAN_RUN@.subrange(45, 440), ',')[8] == "\n                status = ?10"@,
        summary_values(summary, error_message, failed_roots_json)[9] == ValueModel::Text(summary.status@),
        split_on(UPDATE_SCAN_RUN@.subrange(45, 440), ',')[9] == "\n                error_message = ?11"@,
        summary_values(summary, error_message, failed_roots_json)[10] == text_or_null(error_message),
        split_on(UPDATE_SCAN_RUN@.subrange(45, 440), ',')[10] == "\n                failed_roots_json = ?12"@,
        summary_values(summary, error_message, failed_roots_json)[11] == ValueModel::Text(failed_roots_json),
{
    lemma_run_changes();
}

/// The history gives back the summary that was stored: what a row holds of the
/// values of a summary is what is read of it.
pub proof fn the_history_gives_back_the_summary(
    summary: ScanSummary,
    error_message: Option<Seq<char>>,
    failed_roots_json: Seq<char>,
    row: StoredScanRun,
    run: ScanRun,
)
    requires
        ({
            let values = summary_values(summary, error_message, failed_roots_json);
            &&& values[0] == ValueModel::Integer(row.id)
            &&& values[1] == ValueModel::Integer(row.completed_at_ms)
            &&& values[2] == ValueModel::Integer(row.duration_ms)
            &&& values[3] == ValueModel::Integer(row.scanned_files)
            &&& values[4] == ValueModel::Integer(row.imported_files)
            &&& values[5] == ValueModel::Integer(row.skipped_files)
            &&& values[6] == ValueModel::Integer(row.skipped_short_files)
            &&& values[7] == ValueModel::Integer(row.recorded_directories)
            &&& values[8] == ValueModel::Integer(row.ffprobe_missing)
            &&& values[9] == ValueModel::Text(row.status@)
            &&& values[10] == text_or_null(opt_text(row.error_message))
        }),
        run_holds_row(run, row),
    ensures
        run.id == summary.scan_id,
        run.started_at_ms == row.started_at_ms,
        run.completed_at_ms == summary.completed_at_ms,
        run.duration_ms == summary.duration_ms,
        run.scanned_files == summary.scanned_files as i64,
        run.imported_files == summary.imported_files as i64,
        run.skipped_files == summary.skipped_files as i64,
        run.skipped_short_files == summary.skipped_short_files as i64,
        run.recorded_directories == summary.recorded_directories as i64,
        run.ffprobe_missing == summary.ffprobe_missing,
        run.status@ == summary.status@,
        opt_text(run.error_message) == error_message,
        run.created_at@ == row.created_at@,
{
}

// ---------------------------------------------------------------------------
// Reading
// ---------------------------------------------------------------------------

/// The columns that the statement reads, in their order.
pub open spec fn library_reads() -> Seq<Seq<char>> {
    seq![
        "\n              id"@,
        " path"@,
        " file_name"@,
        " root_path"@,
        " file_size"@,
        " duration_seconds"@,
        " container"@,
        "\n              video_codec"@,
        " audio_codec"@,
        " width"@,
        " height"@,
        " resolution"@,
        " source"@,
        " release_group"@,
        "\n              season_number"@,
        " episode_number"@,
        " title_guess"@,
        " media_kind"@,
        " music_artist"@,
        " music_album"@,
        "\n              music_title"@,
        " music_artist_source"@,
        " series_title"@,
        " series_source"@,
    ]
}

#[verifier::spinoff_prover]
#[verifier::rlimit(60)]
proof fn lemma_library_reads()
    ensures
        split_on(SELECT_LIBRARY_FILES@.subrange(19, 368), ',') == library_reads(),
{
    let text = SELECT_LIBRARY_FILES@.subrange(19, 368);
    let parts = library_reads();
    let comma = seq![','];
    reveal_strlit(r#"
            SELECT
              id, path, file_name, root_path, file_size, duration_seconds, container,
              video_codec, audio_codec, width, height, resolution, source, release_group,
              season_number, episode_number, title_guess, media_kind, music_artist, music_album,
              music_title, music_artist_source, series_title, series_source
            FROM media_files
            WHERE media_kind IN ('music', 'video')
            "#);
    assert(SELECT_LIBRARY_FILES@.len() == 461);
    reveal_strlit("\n              id");
    assert(text.subrange(0, 17) =~= "\n              id"@);
    assert(!"\n              id"@.contains(','));
    assert(parts.take(1) =~= seq![parts[0]]);
    assert(text.take(17) =~= text.subrange(0, 17));
    assert(join(parts.take(1), comma) == text.take(17));
    reveal_strlit(" path");
    assert(text.subrange(18, 23) =~= " path"@);
    assert(!" path"@.contains(','));
    assert(text[17] == ',');
    lemma_join_step(text, parts, 1, 17, 23);
    reveal_strlit(" file_name");
    assert(text.subrange(24, 34) =~= " file_name"@);
    assert(!" file_name"@.contains(','));
    assert(text[23] == ',');
    lemma_join_step(text, parts, 2, 23, 34);
    reveal_strlit(" root_path");
    assert(text.subrange(35, 45) =~= " root_path"@);
    assert(!" root_path"@.contains(','));
    assert(text[34] == ',');
    lemma_join_step(text, parts, 3, 34, 45);
    reveal_strlit(" file_size");
    assert(text.subrange(46, 56) =~= " file_size"@);
    assert(!" file_size"@.contains(','));
    assert(text[45] == ',');
    lemma_join_step(text, parts, 4, 45, 56);
    reveal_strlit(" duration_seconds");
    assert(text.subrange(57, 74) =~= " duration_seconds"@);
    assert(!" duration_seconds"@.contains(','));
    assert(text[56] == ',');
    lemma_join_step(text, parts, 5, 56, 74);
    reveal_strlit(" container");
    assert(text.subrange(75, 85) =~= " container"@);
    assert(!" container"@.contains(','));
    assert(text[74] == ',');
    lemma_join_step(text, parts, 6, 74, 85);
    reveal_strlit("\n              video_codec");
    assert(text.subrange(86, 112) =~= "\n              video_codec"@);
    assert(!"\n              video_codec"@.contains(','));
    assert(text[85] == ',');
    lemma_join_step(text, parts, 7, 85, 112);
    reveal_strlit(" audio_codec");
    assert(text.subrange(113, 125) =~= " audio_codec"@);
    assert(!" audio_codec"@.contains(','));
    assert(text[112] == ',');
    lemma_join_step(text, parts, 8, 112, 125);
    reveal_strlit(" width");
    assert(text.subrange(126, 132) =~= " width"@);
    assert(!" width"@.contains(','));
    assert(text[125] == ',');
    lemma_join_step(text, parts, 9, 125, 132);
    reveal_strlit(" height");
    assert(text.subrange(133, 140) =~= " height"@);
    assert(!" height"@.contains(','));
    assert(text[132] == ',');
    lemma_join_step(text, parts, 10, 132, 140);
    reveal_strlit(" resolution");
    assert(text.subrange(141, 152) =~= " resolution"@);
    assert(!" resolution"@.contains(','));
    assert(text[140] == ',');
    lemma_join_step(text, parts, 11, 140, 152);
    reveal_strlit(" source");
    assert(text.subrange(153, 160) =~= " source"@);
    assert(!" source"@.contains(','));
    assert(text[152] == ',');
    lemma_join_step(text, parts, 12, 152, 160);
    reveal_strlit(" release_group");
    assert(text.subrange(161, 175) =~= " release_group"@);
    assert(!" release_group"@.contains(','));
    assert(text[160] == ',');
    lemma_join_step(text, parts, 13, 160, 175);
    reveal_strlit("\n              season_number");
    assert(text.subrange(176, 204) =~= "\n              season_number"@);
    assert(!"\n              season_number"@.contains(','));
    assert(text[175] == ',');
    lemma_join_step(text, parts, 14, 175, 204);
    reveal_strlit(" episode_number");
    assert(text.subrange(205, 220) =~= " episode_number"@);
    assert(!" episode_number"@.contains(','));
    assert(text[204] == ',');
    lemma_join_step(text, parts, 15, 204, 220);
    reveal_strlit(" title_guess");
    assert(text.subrange(221, 233) =~= " title_guess"@);
    assert(!" title_guess"@.contains(','));
    assert(text[220] == ',');
    lemma_join_step(text, parts, 16, 220, 233);
    reveal_strlit(" media_kind");
    assert(text.subrange(234, 245) =~= " media_kind"@);
    assert(!" media_kind"@.contains(','));
    assert(text[233] == ',');
    lemma_join_step(text, parts, 17, 233, 245);
    reveal_strlit(" music_artist");
    assert(text.subrange(246, 259) =~= " music_artist"@);
    assert(!" music_artist"@.contains(','));
    assert(text[245] == ',');
    lemma_join_step(text, parts, 18, 245, 259);
    reveal_strlit(" music_album");
    assert(text.subrange(260, 272) =~= " music_album"@);
    assert(!" music_album"@.contains(','));
    assert(text[259] == ',');
    lemma_join_step(text, parts, 19, 259, 272);
    reveal_strlit("\n              music_title");
    assert(text.subrange(273, 299) =~= "\n              music_title"@);
    assert(!"\n              music_title"@.contains(','));
    assert(text[272] == ',');
    lemma_join_step(text, parts, 20, 272, 299);
    reveal_strlit(" music_artist_source");
    assert(text.subrange(300, 320) =~= " music_artist_source"@);
    assert(!" music_artist_source"@.contains(','));
    assert(text[299] == ',');
    lemma_join_step(text, parts, 21, 299, 320);
    reveal_strlit(" series_title");
    assert(text.subrange(321, 334) =~= " series_title"@);
    assert(!" series_title"@.contains(','));
    assert(text[320] == ',');
    lemma_join_step(text, parts, 22, 320, 334);
    reveal_strlit(" series_source");
    assert(text.subrange(335, 349) =~= " series_source"@);
    assert(!" series_source"@.contains(','));
    assert(text[334] == ',');
    lemma_join_step(text, parts, 23, 334, 349);
    assert(parts.take(24) =~= parts);
    assert(text.take(349) =~= text);
    assert forall|i: int| 0 <= i < parts.len() implies !(#[trigger] parts[i]).contains(',') by {
        assert(0 <= i < 24);
    }
    joined_parts_are_found_again(parts, ',');
}

/// The statement reads the columns of a stored file in their order.
pub proof fn library_reads_their_columns()
    ensures
        split_on(SELECT_LIBRARY_FILES@.subrange(19, 368), ',').len() == 24,
        split_on(SELECT_LIBRARY_FILES@.subrange(19, 368), ',')[0] == "\n              id"@,
        split_on(SELECT_LIBRARY_FILES@.subrange(19, 368), ',')[1] == " path"@,
        split_on(SELECT_LIBRARY_FILES@.subrange(19, 368), ',')[2] == " file_name"@,
        split_on(SELECT_LIBRARY_FILES@.subrange(19, 368), ',')[3] == " root_path"@,
        split_on(SELECT_LIBRARY_FILES@.subrange(19, 368), ',')[4] == " file_size"@,
        split_on(SELECT_LIBRARY_FILES@.subrange(19, 368), ',')[5] == " duration_seconds"@,
        split_on(SELECT_LIBRARY_FILES@.subrange(19, 368), ',')[6] == " container"@,
        split_on(SELECT_LIBRARY_FILES@.subrange(19, 368), ',')[7] == "\n              video_codec"@,
        split_on(SELECT_LIBRARY_FILES@.subrange(19, 368), ',')[8] == " audio_codec"@,
        split_on(SELECT_LIBRARY_FILES@.subrange(19, 368), ',')[9] == " width"@,
        split_on(SELECT_LIBRARY_FILES@.subrange(19, 368), ',')[10] == " height"@,
        split_on(SELECT_LIBRARY_FILES@.subrange(19, 368), ',')[11] == " resolution"@,
        split_on(SELECT_LIBRARY_FILES@.subrange(19, 368), ',')[12] == " source"@,
        split_on(SELECT_LIBRARY_FILES@.subrange(19, 368), ',')[13] == " release_group"@,
        split_on(SELECT_LIBRARY_FILES@.subrange(19, 368), ',')[14] == "\n              season_number"@,
        split_on(SELECT_LIBRARY_FILES@.subrange(19, 368), ',')[15] == " episode_number"@,
        split_on(SELECT_LIBRARY_FILES@.subrange(19, 368), ',')[16] == " title_guess"@,
        split_on(SELECT_LIBRARY_FILES@.subrange(19, 368), ',')[17] == " media_kind"@,
        split_on(SELECT_LIBRARY_FILES@.subrange(19, 368), ',')[18] == " music_artist"@,
        split_on(SELECT_LIBRARY_FILES@.subrange(19, 368), ',')[19] == " music_album"@,
        split_on(SELECT_LIBRARY_FILES@.subrange(19, 368), ',')[20] == "\n              music_title"@,
        split_on(SELECT_LIBRARY_FILES@.subrange(19, 368), ',')[21] == " music_artist_source"@,
        split_on(SELECT_LIBRARY_FILES@.subrange(19, 368), ',')[22] == " series_title"@,
        split_on(SELECT_LIBRARY_FILES@.subrange(19, 368), ',')[23] == " series_source"@,
{
    lemma_library_reads();
}

/// The columns that the statement reads, in their order.
pub open spec fn page_reads() -> Seq<Seq<char>> {
    seq![
        "\n          id"@,
        " path"@,
        " file_name"@,
        " root_path"@,
        " file_size"@,
        " duration_seconds"@,
        " container"@,
        "\n          video_codec"@,
        " audio_codec"@,
        " width"@,
        " height"@,
        " resolution"@,
        " source"@,
        " release_group"@,
        "\n          season_number"@,
        " episode_number"@,
        " title_guess"@,
        " media_kind"@,
        " music_artist"@,
        " music_album"@,
        "\n          music_title"@,
        " music_artist_source"@,
        " series_title"@,
        " series_source"@,
    ]
}

#[verifier::spinoff_prover]
#[verifier::rlimit(60)]
proof fn lemma_page_reads()
    ensures
        split_on(RESOURCE_SELECT@.subrange(15, 348), ',') == page_reads(),
{
    let text = RESOURCE_SELECT@.subrange(15, 348);
    let parts = page_reads();
    let comma = seq![','];
    reveal_strlit(r#"
        SELECT
          id, path, file_name, root_path, file_size, duration_seconds, container,
          video_codec, audio_codec, width, height, resolution, source, release_group,
          season_number, episode_number, title_guess, media_kind, music_artist, music_album,
          music_title, music_artist_source, series_title, series_source
        FROM media_files
        WHERE "#);
    assert(RESOURCE_SELECT@.len() == 388);
    reveal_strlit("\n          id");
    assert(text.subrange(0, 13) =~= "\n          id"@);
    assert(!"\n          id"@.contains(','));
    assert(parts.take(1) =~= seq![parts[0]]);
    assert(text.take(13) =~= text.subrange(0, 13));
    assert(join(parts.take(1), comma) == text.take(13));
    reveal_strlit(" path");
    assert(text.subrange(14, 19) =~= " path"@);
    assert(!" path"@.contains(','));
    assert(text[13] == ',');
    lemma_join_step(text, parts, 1, 13, 19);
    reveal_strlit(" file_name");
    assert(text.subrange(20, 30) =~= " file_name"@);
    assert(!" file_name"@.contains(','));
    assert(text[19] == ',');
    lemma_join_step(text, parts, 2, 19, 30);
    reveal_strlit(" root_path");
    assert(text.subrange(31, 41) =~= " root_path"@);
    assert(!" root_path"@.contains(','));
    assert(text[30] == ',');
    lemma_join_step(text, parts, 3, 30, 41);
    reveal_strlit(" file_size");
    assert(text.subrange(42, 52) =~= " file_size"@);
    assert(!" file_size"@.contains(','));
    assert(text[41] == ',');
    lemma_join_step(text, parts, 4, 41, 52);
    reveal_strlit(" duration_seconds");
    assert(text.subrange(53, 70) =~= " duration_seconds"@);
    assert(!" duration_seconds"@.contains(','));
    assert(text[52] == ',');
    lemma_join_step(text, parts, 5, 52, 70);
    reveal_strlit(" container");
    assert(text.subrange(71, 81) =~= " container"@);
    assert(!" container"@.contains(','));
    assert(text[70] == ',');
    lemma_join_step(text, parts, 6, 70, 81);
    reveal_strlit("\n          video_codec");
    assert(text.subrange(82, 104) =~= "\n          video_codec"@);
    assert(!"\n          video_codec"@.contains(','));
    assert(text[81] == ',');
    lemma_join_step(text, parts, 7, 81, 104);
    reveal_strlit(" audio_codec");
    assert(text.subrange(105, 117) =~= " audio_codec"@);
    assert(!" audio_codec"@.contains(','));
    assert(text[104] == ',');
    lemma_join_step(text, parts, 8, 104, 117);
    reveal_strlit(" width");
    assert(text.subrange(118, 124) =~= " width"@);
    assert(!" width"@.contains(','));
    assert(text[117] == ',');
    lemma_join_step(text, parts, 9, 117, 124);
    reveal_strlit(" height");
    assert(text.subrange(125, 132) =~= " height"@);
    assert(!" height"@.contains(','));
    assert(text[124] == ',');
    lemma_join_step(text, parts, 10, 124, 132);
    reveal_strlit(" resolution");
    assert(text.subrange(133, 144) =~= " resolution"@);
    assert(!" resolution"@.contains(','));
    assert(text[132] == ',');
    lemma_join_step(text, parts, 11, 132, 144);
    reveal_strlit(" source");
    assert(text.subrange(145, 152) =~= " source"@);
    assert(!" source"@.contains(','));
    assert(text[144] == ',');
    lemma_join_step(text, parts, 12, 144, 152);
    reveal_strlit(" release_group");
    assert(text.subrange(153, 167) =~= " release_group"@);
    assert(!" release_group"@.contains(','));
    assert(text[152] == ',');
    lemma_join_step(text, parts, 13, 152, 167);
    reveal_strlit("\n          season_number");
    assert(text.subrange(168, 192) =~= "\n          season_number"@);
    assert(!"\n          season_number"@.contains(','));
    assert(text[167] == ',');
    lemma_join_step(text, parts, 14, 167, 192);
    reveal_strlit(" episode_number");
    assert(text.subrange(193, 208) =~= " episode_number"@);
    assert(!" episode_number"@.contains(','));
    assert(text[192] == ',');
    lemma_join_step(text, parts, 15, 192, 208);
    reveal_strlit(" title_guess");
    assert(text.subrange(209, 221) =~= " title_guess"@);
    assert(!" title_guess"@.contains(','));
    assert(text[208] == ',');
    lemma_join_step(text, parts, 16, 208, 221);
    reveal_strlit(" media_kind");
    assert(text.subrange(222, 233) =~= " media_kind"@);
    assert(!" media_kind"@.contains(','));
    assert(text[221] == ',');
    lemma_join_step(text, parts, 17, 221, 233);
    reveal_strlit(" music_artist");
    assert(text.subrange(234, 247) =~= " music_artist"@);
    assert(!" music_artist"@.contains(','));
    assert(text[233] == ',');
    lemma_join_step(text, parts, 18, 233, 247);
    reveal_strlit(" music_album");
    assert(text.subrange(248, 260) =~= " music_album"@);
    assert(!" music_album"@.contains(','));
    assert(text[247] == ',');
    lemma_join_step(text, parts, 19, 247, 260);
    reveal_strlit("\n          music_title");
    assert(text.subrange(261, 283) =~= "\n          music_title"@);
    assert(!"\n          music_title"@.contains(','));
    assert(text[260] == ',');
    lemma_join_step(text, parts, 20, 260, 283);
    reveal_strlit(" music_artist_source");
    assert(text.subrange(284, 304) =~= " music_artist_source"@);
    assert(!" music_artist_source"@.contains(','));
    assert(text[283] == ',');
    lemma_join_step(text, parts, 21, 283, 304);
    reveal_strlit(" series_title");
    assert(text.subrange(305, 318) =~= " series_title"@);
    assert(!" series_title"@.contains(','));
    assert(text[304] == ',');
    lemma_join_step(text, parts, 22, 304, 318);
    reveal_strlit(" series_source");
    assert(text.subrange(319, 333) =~= " series_source"@);
    assert(!" series_source"@.contains(','));
    assert(text[318] == ',');
    lemma_join_step(text, parts, 23, 318, 333);
    assert(parts.take(24) =~= parts);
    assert(text.take(333) =~= text);
    assert forall|i: int| 0 <= i < parts.len() implies !(#[trigger] parts[i]).contains(',') by {
        assert(0 <= i < 24);
    }
    joined_parts_are_found_again(parts, ',');
}

/// The statement reads the columns of a stored file in their order.
pub proof fn page_reads_their_columns()
    ensures
        split_on(RESOURCE_SELECT@.subrange(15, 348), ',').len() == 24,
        split_on(RESOURCE_SELECT@.subrange(15, 348), ',')[0] == "\n          id"@,
        split_on(RESOURCE_SELECT@.subrange(15, 348), ',')[1] == " path"@,
        split_on(RESOURCE_SELECT@.subrange(15, 348), ',')[2] == " file_name"@,
        split_on(RESOURCE_SELECT@.subrange(15, 348), ',')[3] == " root_path"@,
        split_on(RESOURCE_SELECT@.subrange(15, 348), ',')[4] == " file_size"@,
        split_on(RESOURCE_SELECT@.subrange(15, 348), ',')[5] == " duration_seconds"@,
        split_on(RESOURCE_SELECT@.subrange(15, 348), ',')[6] == " container"@,
        split_on(RESOURCE_SELECT@.subrange(15, 348), ',')[7] == "\n          video_codec"@,
        split_on(RESOURCE_SELECT@.subrange(15, 348), ',')[8] == " audio_codec"@,
        split_on(RESOURCE_SELECT@.subrange(15, 348), ',')[9] == " width"@,
        split_on(RESOURCE_SELECT@.subrange(15, 348), ',')[10] == " height"@,
        split_on(RESOURCE_SELECT@.subrange(15, 348), ',')[11] == " resolution"@,
        split_on(RESOURCE_SELECT@.subrange(15, 348), ',')[12] == " source"@,
        split_on(RESOURCE_SELECT@.subrange(15, 348), ',')[13] == " release_group"@,
        split_on(RESOURCE_SELECT@.subrange(15, 348), ',')[14] == "\n          season_number"@,
        split_on(RESOURCE_SELECT@.subrange(15, 348), ',')[15] == " episode_number"@,
        split_on(RESOURCE_SELECT@.subrange(15, 348), ',')[16] == " title_guess"@,
        split_on(RESOURCE_SELECT@.subrange(15, 348), ',')[17] == " media_kind"@,
        split_on(RESOURCE_SELECT@.subrange(15, 348), ',')[18] == " music_artist"@,
        split_on(RESOURCE_SELECT@.subrange(15, 348), ',')[19] == " music_album"@,
        split_on(RESOURCE_SELECT@.subrange(15, 348), ',')[20] == "\n          music_title"@,
        split_on(RESOURCE_SELECT@.subrange(15, 348), ',')[21] == " music_artist_source"@,
        split_on(RESOURCE_SELECT@.subrange(15, 348), ',')[22] == " series_title"@,
        split_on(RESOURCE_SELECT@.subrange(15, 348), ',')[23] == " series_source"@,
{
    lemma_page_reads();
}

/// The columns that the statement reads, in their order.
pub open spec fn completion_reads() -> Seq<Seq<char>> {
    seq![
        "\n          id"@,
        " path"@,
        " file_name"@,
        " root_path"@,
        " file_size"@,
        " duration_seconds"@,
        " container"@,
        "\n          video_codec"@,
        " audio_codec"@,
        " width"@,
        " height"@,
        " resolution"@,
        " source"@,
        " release_group"@,
        "\n          season_number"@,
        " episode_number"@,
        " title_guess"@,
        " media_kind"@,
        " music_artist"@,
        " music_album"@,
        "\n          music_title"@,
        " music_artist_source"@,
        " series_title"@,
        " series_source"@,
    ]
}

#[verifier::spinoff_prover]
#[verifier::rlimit(60)]
proof fn lemma_completion_reads()
    ensures
        split_on(SELECT_INCOMPLETE_FILES@.subrange(15, 348), ',') == completion_reads(),
{
    let text = SELECT_INCOMPLETE_FILES@.subrange(15, 348);
    let parts = completion_reads();
    let comma = seq![','];
    reveal_strlit(r#"
        SELECT
          id, path, file_name, root_path, file_size, duration_seconds, container,
          video_codec, audio_codec, width, height, resolution, source, release_group,
          season_number, episode_number, title_guess, media_kind, music_artist, music_album,
          music_title, music_artist_source, series_title, series_source
        FROM media_files
        WHERE root_key = '' OR directory_path = '' OR media_kind = ''
           OR (media_kind = 'music' AND music_artist_key IS NULL)
           OR (media_kind = 'video' AND series_key IS NULL)
        "#);
    assert(SELECT_INCOMPLETE_FILES@.len() == 578);
    reveal_strlit("\n          id");
    assert(text.subrange(0, 13) =~= "\n          id"@);
    assert(!"\n          id"@.contains(','));
    assert(parts.take(1) =~= seq![parts[0]]);
    assert(text.take(13) =~= text.subrange(0, 13));
    assert(join(parts.take(1), comma) == text.take(13));
    reveal_strlit(" path");
    assert(text.subrange(14, 19) =~= " path"@);
    assert(!" path"@.contains(','));
    assert(text[13] == ',');
    lemma_join_step(text, parts, 1, 13, 19);
    reveal_strlit(" file_name");
    assert(text.subrange(20, 30) =~= " file_name"@);
    assert(!" file_name"@.contains(','));
    assert(text[19] == ',');
    lemma_join_step(text, parts, 2, 19, 30);
    reveal_strlit(" root_path");
    assert(text.subrange(31, 41) =~= " root_path"@);
    assert(!" root_path"@.contains(','));
    assert(text[30] == ',');
    lemma_join_step(text, parts, 3, 30, 41);
    reveal_strlit(" file_size");
    assert(text.subrange(42, 52) =~= " file_size"@);
    assert(!" file_size"@.contains(','));
    assert(text[41] == ',');
    lemma_join_step(text, parts, 4, 41, 52);
    reveal_strlit(" duration_seconds");
    assert(text.subrange(53, 70) =~= " duration_seconds"@);
    assert(!" duration_seconds"@.contains(','));
    assert(text[52] == ',');
    lemma_join_step(text, parts, 5, 52, 70);
    reveal_strlit(" container");
    assert(text.subrange(71, 81) =~= " container"@);
    assert(!" container"@.contains(','));
    assert(text[70] == ',');
    lemma_join_step(text, parts, 6, 70, 81);
    reveal_strlit("\n          video_codec");
    assert(text.subrange(82, 104) =~= "\n          video_codec"@);
    assert(!"\n          video_codec"@.contains(','));
    assert(text[81] == ',');
    lemma_join_step(text, parts, 7, 81, 104);
    reveal_strlit(" audio_codec");
    assert(text.subrange(105, 117) =~= " audio_codec"@);
    assert(!" audio_codec"@.contains(','));
    assert(text[104] == ',');
    lemma_join_step(text, parts, 8, 104, 117);
    reveal_strlit(" width");
    assert(text.subrange(118, 124) =~= " width"@);
    assert(!" width"@.contains(','));
    assert(text[117] == ',');
    lemma_join_step(text, parts, 9, 117, 124);
    reveal_strlit(" height");
    assert(text.subrange(125, 132) =~= " height"@);
    assert(!" height"@.contains(','));
    assert(text[124] == ',');
    lemma_join_step(text, parts, 10, 124, 132);
    reveal_strlit(" resolution");
    assert(text.subrange(133, 144) =~= " resolution"@);
    assert(!" resolution"@.contains(','));
    assert(text[132] == ',');
    lemma_join_step(text, parts, 11, 132, 144);
    reveal_strlit(" source");
    assert(text.subrange(145, 152) =~= " source"@);
    assert(!" source"@.contains(','));
    assert(text[144] == ',');
    lemma_join_step(text, parts, 12, 144, 152);
    reveal_strlit(" release_group");
    assert(text.subrange(153, 167) =~= " release_group"@);
    assert(!" release_group"@.contains(','));
    assert(text[152] == ',');
    lemma_join_step(text, parts, 13, 152, 167);
    reveal_strlit("\n          season_number");
    assert(text.subrange(168, 192) =~= "\n          season_number"@);
    assert(!"\n          season_number"@.contains(','));
    assert(text[167] == ',');
    lemma_join_step(text, parts, 14, 167, 192);
    reveal_strlit(" episode_number");
    assert(text.subrange(193, 208) =~= " episode_number"@);
    assert(!" episode_number"@.contains(','));
    assert(text[192] == ',');
    lemma_join_step(text, parts, 15, 192, 208);
    reveal_strlit(" title_guess");
    assert(text.subrange(209, 221) =~= " title_guess"@);
    assert(!" title_guess"@.contains(','));
    assert(text[208] == ',');
    lemma_join_step(text, parts, 16, 208, 221);
    reveal_strlit(" media_kind");
    assert(text.subrange(222, 233) =~= " media_kind"@);
    assert(!" media_kind"@.contains(','));
    assert(text[221] == ',');
    lemma_join_step(text, parts, 17, 221, 233);
    reveal_strlit(" music_artist");
    assert(text.subrange(234, 247) =~= " music_artist"@);
    assert(!" music_artist"@.contains(','));
    assert(text[233] == ',');
    lemma_join_step(text, parts, 18, 233, 247);
    reveal_strlit(" music_album");
    assert(text.subrange(248, 260) =~= " music_album"@);
    assert(!" music_album"@.contains(','));
    assert(text[247] == ',');
    lemma_join_step(text, parts, 19, 247, 260);
    reveal_strlit("\n          music_title");
    assert(text.subrange(261, 283) =~= "\n          music_title"@);
    assert(!"\n          music_title"@.contains(','));
    assert(text[260] == ',');
    lemma_join_step(text, parts, 20, 260, 283);
    reveal_strlit(" music_artist_source");
    assert(text.subrange(284, 304) =~= " music_artist_source"@);
    assert(!" music_artist_source"@.contains(','));
    assert(text[283] == ',');
    lemma_join_step(text, parts, 21, 283, 304);
    reveal_strlit(" series_title");
    assert(text.subrange(305, 318) =~= " series_title"@);
    assert(!" series_title"@.contains(','));
    assert(text[304] == ',');
    lemma_join_step(text, parts, 22, 304, 318);
    reveal_strlit(" series_source");
    assert(text.subrange(319, 333) =~= " series_source"@);
    assert(!" series_source"@.contains(','));
    assert(text[318] == ',');
    lemma_join_step(text, parts, 23, 318, 333);
    assert(parts.take(24) =~= parts);
    assert(text.take(333) =~= text);
    assert forall|i: int| 0 <= i < parts.len() implies !(#[trigger] parts[i]).contains(',') by {
        assert(0 <= i < 24);
    }
    joined_parts_are_found_again(parts, ',');
}

/// The statement reads the columns of a stored file in their order.
pub proof fn completion_reads_their_columns()
    ensures
        split_on(SELECT_INCOMPLETE_FILES@.subrange(15, 348), ',').len() == 24,
        split_on(SELECT_INCOMPLETE_FILES@.subrange(15, 348), ',')[0] == "\n          id"@,
        split_on(SELECT_INCOMPLETE_FILES@.subrange(15, 348), ',')[1] == " path"@,
        split_on(SELECT_INCOMPLETE_FILES@.subrange(15, 348), ',')[2] == " file_name"@,
        split_on(SELECT_INCOMPLETE_FILES@.subrange(15, 348), ',')[3] == " root_path"@,
        split_on(SELECT_INCOMPLETE_FILES@.subrange(15, 348), ',')[4] == " file_size"@,
        split_on(SELECT_INCOMPLETE_FILES@.subrange(15, 348), ',')[5] == " duration_seconds"@,
        split_on(SELECT_INCOMPLETE_FILES@.subrange(15, 348), ',')[6] == " container"@,
        split_on(SELECT_INCOMPLETE_FILES@.subrange(15, 348), ',')[7] == "\n          video_codec"@,
        split_on(SELECT_INCOMPLETE_FILES@.subrange(15, 348), ',')[8] == " audio_codec"@,
        split_on(SELECT_INCOMPLETE_FILES@.subrange(15, 348), ',')[9] == " width"@,
        split_on(SELECT_INCOMPLETE_FILES@.subrange(15, 348), ',')[10] == " height"@,
        split_on(SELECT_INCOMPLETE_FILES@.subrange(15, 348), ',')[11] == " resolution"@,
        split_on(SELECT_INCOMPLETE_FILES@.subrange(15, 348), ',')[12] == " source"@,
        split_on(SELECT_INCOMPLETE_FILES@.subrange(15, 348), ',')[13] == " release_group"@,
        split_on(SELECT_INCOMPLETE_FILES@.subrange(15, 348), ',')[14] == "\n          season_number"@,
        split_on(SELECT_INCOMPLETE_FILES@.subrange(15, 348), ',')[15] == " episode_number"@,
        split_on(SELECT_INCOMPLETE_FILES@.subrange(15, 348), ',')[16] == " title_guess"@,
        split_on(SELECT_INCOMPLETE_FILES@.subrange(15, 348), ',')[17] == " media_kind"@,
        split_on(SELECT_INCOMPLETE_FILES@.subrange(15, 348), ',')[18] == " music_artist"@,
        split_on(SELECT_INCOMPLETE_FILES@.subrange(15, 348), ',')[19] == " music_album"@,
        split_on(SELECT_INCOMPLETE_FILES@.subrange(15, 348), ',')[20] == "\n          music_title"@,
        split_on(SELECT_INCOMPLETE_FILES@.subrange(15, 348), ',')[21] == " music_artist_source"@,
        split_on(SELECT_INCOMPLETE_FILES@.subrange(15, 348), ',')[22] == " series_title"@,
        split_on(SELECT_INCOMPLETE_FILES@.subrange(15, 348), ',')[23] == " series_source"@,
{
    lemma_completion_reads();
}

/// The columns that the statement reads, in their order.
pub open spec fn skip_reads() -> Seq<Seq<char>> {
    seq![
        " id"@,
        " scan_id"@,
        " path"@,
        " file_name"@,
        " root_path"@,
        " reason"@,
        " detail"@,
        " is_short_video"@,
        "\n                   file_size"@,
        " modified_ms"@,
        " created_at"@,
    ]
}

#[verifier::spinoff_prover]
#[verifier::rlimit(60)]
proof fn lemma_skip_reads()
    ensures
        split_on(SELECT_SKIPS@.subrange(19, 146), ',') == skip_reads(),
{
    let text = SELECT_SKIPS@.subrange(19, 146);
    let parts = skip_reads();
    let comma = seq![','];
    reveal_strlit(r#"
            SELECT id, scan_id, path, file_name, root_path, reason, detail, is_short_video,
                   file_size, modified_ms, created_at
            FROM scan_skips
            WHERE scan_id = ?1
            ORDER BY root_path COLLATE NOCASE, path COLLATE NOCASE
            "#);
    assert(SELECT_SKIPS@.len() == 285);
    reveal_strlit(" id");
    assert(text.subrange(0, 3) =~= " id"@);
    assert(!" id"@.contains(','));
    assert(parts.take(1) =~= seq![parts[0]]);
    assert(text.take(3) =~= text.subrange(0, 3));
    assert(join(parts.take(1), comma) == text.take(3));
    reveal_strlit(" scan_id");
    assert(text.subrange(4, 12) =~= " scan_id"@);
    assert(!" scan_id"@.contains(','));
    assert(text[3] == ',');
    lemma_join_step(text, parts, 1, 3, 12);
    reveal_strlit(" path");
    assert(text.subrange(13, 18) =~= " path"@);
    assert(!" path"@.contains(','));
    assert(text[12] == ',');
    lemma_join_step(text, parts, 2, 12, 18);
    reveal_strlit(" file_name");
    assert(text.subrange(19, 29) =~= " file_name"@);
    assert(!" file_name"@.contains(','));
    assert(text[18] == ',');
    lemma_join_step(text, parts, 3, 18, 29);
    reveal_strlit(" root_path");
    assert(text.subrange(30, 40) =~= " root_path"@);
    assert(!" root_path"@.contains(','));
    assert(text[29] == ',');
    lemma_join_step(text, parts, 4, 29, 40);
    reveal_strlit(" reason");
    assert(text.subrange(41, 48) =~= " reason"@);
    assert(!" reason"@.contains(','));
    assert(text[40] == ',');
    lemma_join_step(text, parts, 5, 40, 48);
    reveal_strlit(" detail");
    assert(text.subrange(49, 56) =~= " detail"@);
    assert(!" detail"@.contains(','));
    assert(text[48] == ',');
    lemma_join_step(text, parts, 6, 48, 56);
    reveal_strlit(" is_short_video");
    assert(text.subrange(57, 72) =~= " is_short_video"@);
    assert(!" is_short_video"@.contains(','));
    assert(text[56] == ',');
    lemma_join_step(text, parts, 7, 56, 72);
    reveal_strlit("\n                   file_size");
    assert(text.subrange(73, 102) =~= "\n                   file_size"@);
    assert(!"\n                   file_size"@.contains(','));
    assert(text[72] == ',');
    lemma_join_step(text, parts, 8, 72, 102);
    reveal_strlit(" modified_ms");
    assert(text.subrange(103, 115) =~= " modified_ms"@);
    assert(!" modified_ms"@.contains(','));
    assert(text[102] == ',');
    lemma_join_step(text, parts, 9, 102, 115);
    reveal_strlit(" created_at");
    assert(text.subrange(116, 127) =~= " created_at"@);
    assert(!" created_at"@.contains(','));
    assert(text[115] == ',');
    lemma_join_step(text, parts, 10, 115, 127);
    assert(parts.take(11) =~= parts);
    assert(text.take(127) =~= text);
    assert forall|i: int| 0 <= i < parts.len() implies !(#[trigger] parts[i]).contains(',') by {
        assert(0 <= i < 11);
    }
    joined_parts_are_found_again(parts, ',');
}

/// The statement reads its columns in their order.
pub proof fn skip_reads_their_columns()
    ensures
        split_on(SELECT_SKIPS@.subrange(19, 146), ',').len() == 11,
        split_on(SELECT_SKIPS@.subrange(19, 146), ',')[0] == " id"@,
        split_on(SELECT_SKIPS@.subrange(19, 146), ',')[1] == " scan_id"@,
        split_on(SELECT_SKIPS@.subrange(19, 146), ',')[2] == " path"@,
        split_on(SELECT_SKIPS@.subrange(19, 146), ',')[3] == " file_name"@,
        split_on(SELECT_SKIPS@.subrange(19, 146), ',')[4] == " root_path"@,
        split_on(SELECT_SKIPS@.subrange(19, 146), ',')[5] == " reason"@,
        split_on(SELECT_SKIPS@.subrange(19, 146), ',')[6] == " detail"@,
        split_on(SELECT_SKIPS@.subrange(19, 146), ',')[7] == " is_short_video"@,
        split_on(SELECT_SKIPS@.subrange(19, 146), ',')[8] == "\n                   file_size"@,
        split_on(SELECT_SKIPS@.subrange(19, 146), ',')[9] == " modified_ms"@,
        split_on(SELECT_SKIPS@.subrange(19, 146), ',')[10] == " created_at"@,
{
    lemma_skip_reads();
}

/// The columns that the statement reads, in their order.
pub open spec fn failed_skip_reads() -> Seq<Seq<char>> {
    seq![
        " id"@,
        " scan_id"@,
        " path"@,
        " file_name"@,
        " root_path"@,
        " reason"@,
        " detail"@,
        " is_short_video"@,
        "\n               file_size"@,
        " modified_ms"@,
        " created_at"@,
    ]
}

#[verifier::spinoff_prover]
#[verifier::rlimit(60)]
proof fn lemma_failed_skip_reads()
    ensures
        split_on(SELECT_FAILED_SKIPS@.subrange(15, 138), ',') == failed_skip_reads(),
{
    let text = SELECT_FAILED_SKIPS@.subrange(15, 138);
    let parts = failed_skip_reads();
    let comma = seq![','];
    reveal_strlit(r#"
        SELECT id, scan_id, path, file_name, root_path, reason, detail, is_short_video,
               file_size, modified_ms, created_at
        FROM scan_skips
        WHERE scan_id = ?1 AND is_short_video = 0
        ORDER BY root_path COLLATE NOCASE, path COLLATE NOCASE
        "#);
    assert(SELECT_FAILED_SKIPS@.len() == 284);
    reveal_strlit(" id");
    assert(text.subrange(0, 3) =~= " id"@);
    assert(!" id"@.contains(','));
    assert(parts.take(1) =~= seq![parts[0]]);
    assert(text.take(3) =~= text.subrange(0, 3));
    assert(join(parts.take(1), comma) == text.take(3));
    reveal_strlit(" scan_id");
    assert(text.subrange(4, 12) =~= " scan_id"@);
    assert(!" scan_id"@.contains(','));
    assert(text[3] == ',');
    lemma_join_step(text, parts, 1, 3, 12);
    reveal_strlit(" path");
    assert(text.subrange(13, 18) =~= " path"@);
    assert(!" path"@.contains(','));
    assert(text[12] == ',');
    lemma_join_step(text, parts, 2, 12, 18);
    reveal_strlit(" file_name");
    assert(text.subrange(19, 29) =~= " file_name"@);
    assert(!" file_name"@.contains(','));
    assert(text[18] == ',');
    lemma_join_step(text, parts, 3, 18, 29);
    reveal_strlit(" root_path");
    assert(text.subrange(30, 40) =~= " root_path"@);
    assert(!" root_path"@.contains(','));
    assert(text[29] == ',');
    lemma_join_step(text, parts, 4, 29, 40);
    reveal_strlit(" reason");
    assert(text.subrange(41, 48) =~= " reason"@);
    assert(!" reason"@.contains(','));
    assert(text[40] == ',');
    lemma_join_step(text, parts, 5, 40, 48);
    reveal_strlit(" detail");
    assert(text.subrange(49, 56) =~= " detail"@);
    assert(!" detail"@.contains(','));
    assert(text[48] == ',');
    lemma_join_step(text, parts, 6, 48, 56);
    reveal_strlit(" is_short_video");
    assert(text.subrange(57, 72) =~= " is_short_video"@);
    assert(!" is_short_video"@.contains(','));
    assert(text[56] == ',');
    lemma_join_step(text, parts, 7, 56, 72);
    reveal_strlit("\n               file_size");
    assert(text.subrange(73, 98) =~= "\n               file_size"@);
    assert(!"\n               file_size"@.contains(','));
    assert(text[72] == ',');
    lemma_join_step(text, parts, 8, 72, 98);
    reveal_strlit(" modified_ms");
    assert(text.subrange(99, 111) =~= " modified_ms"@);
    assert(!" modified_ms"@.contains(','));
    assert(text[98] == ',');
    lemma_join_step(text, parts, 9, 98, 111);
    reveal_strlit(" created_at");
    assert(text.subrange(112, 123) =~= " created_at"@);
    assert(!" created_at"@.contains(','));
    assert(text[111] == ',');
    lemma_join_step(text, parts, 10, 111, 123);
    assert(parts.take(11) =~= parts);
    assert(text.take(123) =~= text);
    assert forall|i: int| 0 <= i < parts.len() implies !(#[trigger] parts[i]).contains(',') by {
        assert(0 <= i < 11);
    }
    joined_parts_are_found_again(parts, ',');
}

/// The statement reads its columns in their order.
pub proof fn failed_skip_reads_their_columns()
    ensures
        split_on(SELECT_FAILED_SKIPS@.subrange(15, 138), ',').len() == 11,
        split_on(SELECT_FAILED_SKIPS@.subrange(15, 138), ',')[0] == " id"@,
        split_on(SELECT_FAILED_SKIPS@.subrange(15, 138), ',')[1] == " scan_id"@,
        split_on(SELECT_FAILED_SKIPS@.subrange(15, 138), ',')[2] == " path"@,
        split_on(SELECT_FAILED_SKIPS@.subrange(15, 138), ',')[3] == " file_name"@,
        split_on(SELECT_FAILED_SKIPS@.subrange(15, 138), ',')[4] == " root_path"@,
        split_on(SELECT_FAILED_SKIPS@.subrange(15, 138), ',')[5] == " reason"@,
        split_on(SELECT_FAILED_SKIPS@.subrange(15, 138), ',')[6] == " detail"@,
        split_on(SELECT_FAILED_SKIPS@.subrange(15, 138), ',')[7] == " is_short_video"@,
        split_on(SELECT_FAILED_SKIPS@.subrange(15, 138), ',')[8] == "\n               file_size"@,
        split_on(SELECT_FAILED_SKIPS@.subrange(15, 138), ',')[9] == " modified_ms"@,
        split_on(SELECT_FAILED_SKIPS@.subrange(15, 138), ',')[10] == " created_at"@,
{
    lemma_failed_skip_reads();
}

/// The columns that the statement reads, in their order.
pub open spec fn history_reads() -> Seq<Seq<char>> {
    seq![
        " id"@,
        " started_at_ms"@,
        " completed_at_ms"@,
        " duration_ms"@,
        " scanned_files"@,
        "\n                   imported_files"@,
        " skipped_files"@,
        " skipped_short_files"@,
        " recorded_directories"@,
        "\n                   ffprobe_missing"@,
        " status"@,
        " error_message"@,
        " failed_roots_json"@,
        "\n                   paths_json"@,
        " excluded_paths_json"@,
        " created_at"@,
    ]
}

#[verifier::spinoff_prover]
#[verifier::rlimit(60)]
proof fn lemma_history_reads()
    ensures
        split_on(SELECT_SCAN_RUNS@.subrange(19, 317), ',') == history_reads(),
{
    let text = SELECT_SCAN_RUNS@.subrange(19, 317);
    let parts = history_reads();
    let comma = seq![','];
    reveal_strlit(r#"
            SELECT id, started_at_ms, completed_at_ms, duration_ms, scanned_files,
                   imported_files, skipped_files, skipped_short_files, recorded_directories,
                   ffprobe_missing, status, error_message, failed_roots_json,
                   paths_json, excluded_paths_json, created_at
            FROM scan_runs
            ORDER BY id DESC
            LIMIT ?1
            "#);
    assert(SELECT_SCAN_RUNS@.len() == 407);
    reveal_strlit(" id");
    assert(text.subrange(0, 3) =~= " id"@);
    assert(!" id"@.contains(','));
    assert(parts.take(1) =~= seq![parts[0]]);
    assert(text.take(3) =~= text.subrange(0, 3));
    assert(join(parts.take(1), comma) == text.take(3));
    reveal_strlit(" started_at_ms");
    assert(text.subrange(4, 18) =~= " started_at_ms"@);
    assert(!" started_at_ms"@.contains(','));
    assert(text[3] == ',');
    lemma_join_step(text, parts, 1, 3, 18);
    reveal_strlit(" completed_at_ms");
    assert(text.subrange(19, 35) =~= " completed_at_ms"@);
    assert(!" completed_at_ms"@.contains(','));
    assert(text[18] == ',');
    lemma_join_step(text, parts, 2, 18, 35);
    reveal_strlit(" duration_ms");
    assert(text.subrange(36, 48) =~= " duration_ms"@);
    assert(!" duration_ms"@.contains(','));
    assert(text[35] == ',');
    lemma_join_step(text, parts, 3, 35, 48);
    reveal_strlit(" scanned_files");
    assert(text.subrange(49, 63) =~= " scanned_files"@);
    assert(!" scanned_files"@.contains(','));
    assert(text[48] == ',');
    lemma_join_step(text, parts, 4, 48, 63);
    reveal_strlit("\n                   imported_files");
    assert(text.subrange(64, 98) =~= "\n                   imported_files"@);
    assert(!"\n                   imported_files"@.contains(','));
    assert(text[63] == ',');
    lemma_join_step(text, parts, 5, 63, 98);
    reveal_strlit(" skipped_files");
    assert(text.subrange(99, 113) =~= " skipped_files"@);
    assert(!" skipped_files"@.contains(','));
    assert(text[98] == ',');
    lemma_join_step(text, parts, 6, 98, 113);
    reveal_strlit(" skipped_short_files");
    assert(text.subrange(114, 134) =~= " skipped_short_files"@);
    assert(!" skipped_short_files"@.contains(','));
    assert(text[113] == ',');
    lemma_join_step(text, parts, 7, 113, 134);
    reveal_strlit(" recorded_directories");
    assert(text.subrange(135, 156) =~= " recorded_directories"@);
    assert(!" recorded_directories"@.contains(','));
    assert(text[134] == ',');
    lemma_join_step(text, parts, 8, 134, 156);
    reveal_strlit("\n                   ffprobe_missing");
    assert(text.subrange(157, 192) =~= "\n                   ffprobe_missing"@);
    assert(!"\n                   ffprobe_missing"@.contains(','));
    assert(text[156] == ',');
    lemma_join_step(text, parts, 9, 156, 192);
    reveal_strlit(" status");
    assert(text.subrange(193, 200) =~= " status"@);
    assert(!" status"@.contains(','));
    assert(text[192] == ',');
    lemma_join_step(text, parts, 10, 192, 200);
    reveal_strlit(" error_message");
    assert(text.subrange(201, 215) =~= " error_message"@);
    assert(!" error_message"@.contains(','));
    assert(text[200] == ',');
    lemma_join_step(text, parts, 11, 200, 215);
    reveal_strlit(" failed_roots_json");
    assert(text.subrange(216, 234) =~= " failed_roots_json"@);
    assert(!" failed_roots_json"@.contains(','));
    assert(text[215] == ',');
    lemma_join_step(text, parts, 12, 215, 234);
    reveal_strlit("\n                   paths_json");
    assert(text.subrange(235, 265) =~= "\n                   paths_json"@);
    assert(!"\n                   paths_json"@.contains(','));
    assert(text[234] == ',');
    lemma_join_step(text, parts, 13, 234, 265);
    reveal_strlit(" excluded_paths_json");
    assert(text.subrange(266, 286) =~= " excluded_paths_json"@);
    assert(!" excluded_paths_json"@.contains(','));
    assert(text[265] == ',');
    lemma_join_step(text, parts, 14, 265, 286);
    reveal_strlit(" created_at");
    assert(text.subrange(287, 298) =~= " created_at"@);
    assert(!" created_at"@.contains(','));
    assert(text[286] == ',');
    lemma_join_step(text, parts, 15, 286, 298);
    assert(parts.take(16) =~= parts);
    assert(text.take(298) =~= text);
    assert forall|i: int| 0 <= i < parts.len() implies !(#[trigger] parts[i]).contains(',') by {
        assert(0 <= i < 16);
    }
    joined_parts_are_found_again(parts, ',');
}

/// The statement reads its columns in their order.
pub proof fn history_reads_their_columns()
    ensures
        split_on(SELECT_SCAN_RUNS@.subrange(19, 317), ',').len() == 16,
        split_on(SELECT_SCAN_RUNS@.subrange(19, 317), ',')[0] == " id"@,
        split_on(SELECT_SCAN_RUNS@.subrange(19, 317), ',')[1] == " started_at_ms"@,
        split_on(SELECT_SCAN_RUNS@.subrange(19, 317), ',')[2] == " completed_at_ms"@,
        split_on(SELECT_SCAN_RUNS@.subrange(19, 317), ',')[3] == " duration_ms"@,
        split_on(SELECT_SCAN_RUNS@.subrange(19, 317), ',')[4] == " scanned_files"@,
        split_on(SELECT_SCAN_RUNS@.subrange(19, 317), ',')[5] == "\n                   imported_files"@,
        split_on(SELECT_SCAN_RUNS@.subrange(19, 317), ',')[6] == " skipped_files"@,
        split_on(SELECT_SCAN_RUNS@.subrange(19, 317), ',')[7] == " skipped_short_files"@,
        split_on(SELECT_SCAN_RUNS@.subrange(19, 317), ',')[8] == " recorded_directories"@,
        split_on(SELECT_SCAN_RUNS@.subrange(19, 317), ',')[9] == "\n                   ffprobe_missing"@,
        split_on(SELECT_SCAN_RUNS@.subrange(19, 317), ',')[10] == " status"@,
        split_on(SELECT_SCAN_RUNS@.subrange(19, 317), ',')[11] == " error_message"@,
        split_on(SELECT_SCAN_RUNS@.subrange(19, 317), ',')[12] == " failed_roots_json"@,
        split_on(SELECT_SCAN_RUNS@.subrange(19, 317), ',')[13] == "\n                   paths_json"@,
        split_on(SELECT_SCAN_RUNS@.subrange(19, 317), ',')[14] == " excluded_paths_json"@,
        split_on(SELECT_SCAN_RUNS@.subrange(19, 317), ',')[15] == " created_at"@,
{
    lemma_history_reads();
}

/// What the rows of a page are sorted by, in this order.
pub open spec fn page_order() -> Seq<Seq<char>> {
    seq![
        "\n          CASE WHEN season_number IS NULL THEN 1 ELSE 0 END"@,
        "\n          season_number"@,
        "\n          CASE WHEN episode_number IS NULL THEN 1 ELSE 0 END"@,
        "\n          episode_number"@,
        "\n          file_name COLLATE NOCASE"@,
        "\n          path COLLATE NOCASE"@,
    ]
}

#[verifier::spinoff_prover]
#[verifier::rlimit(60)]
proof fn lemma_page_order()
    ensures
        split_on(RESOURCE_ORDER@.subrange(17, 257), ',') == page_order(),
{
    let text = RESOURCE_ORDER@.subrange(17, 257);
    let parts = page_order();
    let comma = seq![','];
    reveal_strlit(r#"
        ORDER BY
          CASE WHEN season_number IS NULL THEN 1 ELSE 0 END,
          season_number,
          CASE WHEN episode_number IS NULL THEN 1 ELSE 0 END,
          episode_number,
          file_name COLLATE NOCASE,
          path COLLATE NOCASE
        LIMIT ? OFFSET ?
        "#);
    assert(RESOURCE_ORDER@.len() == 291);
    reveal_strlit("\n          CASE WHEN season_number IS NULL THEN 1 ELSE 0 END");
    assert(text.subrange(0, 60) =~= "\n          CASE WHEN season_number IS NULL THEN 1 ELSE 0 END"@);
    assert(!"\n          CASE WHEN season_number IS NULL THEN 1 ELSE 0 END"@.contains(','));
    assert(parts.take(1) =~= seq![parts[0]]);
    assert(text.take(60) =~= text.subrange(0, 60));
    assert(join(parts.take(1), comma) == text.take(60));
    reveal_strlit("\n          season_number");
    assert(text.subrange(61, 85) =~= "\n          season_number"@);
    assert(!"\n          season_number"@.contains(','));
    assert(text[60] == ',');
    lemma_join_step(text, parts, 1, 60, 85);
    reveal_strlit("\n          CASE WHEN episode_number IS NULL THEN 1 ELSE 0 END");
    assert(text.subrange(86, 147) =~= "\n          CASE WHEN episode_number IS NULL THEN 1 ELSE 0 END"@);
    assert(!"\n          CASE WHEN episode_number IS NULL THEN 1 ELSE 0 END"@.contains(','));
    assert(text[85] == ',');
    lemma_join_step(text, parts, 2, 85, 147);
    reveal_strlit("\n          episode_number");
    assert(text.subrange(148, 173) =~= "\n          episode_number"@);
    assert(!"\n          episode_number"@.contains(','));
    assert(text[147] == ',');
    lemma_join_step(text, parts, 3, 147, 173);
    reveal_strlit("\n          file_name COLLATE NOCASE");
    assert(text.subrange(174, 209) =~= "\n          file_name COLLATE NOCASE"@);
    assert(!"\n          file_name COLLATE NOCASE"@.contains(','));
    assert(text[173] == ',');
    lemma_join_step(text, parts, 4, 173, 209);
    reveal_strlit("\n          path COLLATE NOCASE");
    assert(text.subrange(210, 240) =~= "\n          path COLLATE NOCASE"@);
    assert(!"\n          path COLLATE NOCASE"@.contains(','));
    assert(text[209] == ',');
    lemma_join_step(text, parts, 5, 209, 240);
    assert(parts.take(6) =~= parts);
    assert(text.take(240) =~= text);
    assert forall|i: int| 0 <= i < parts.len() implies !(#[trigger] parts[i]).contains(',') by {
        assert(0 <= i < 6);
    }
    joined_parts_are_found_again(parts, ',');
}

/// The rows of a page are sorted by season, those without one last, by episode,
/// those without one last, by name and by path.
pub proof fn pages_are_sorted_in_this_order()
    ensures
        split_on(RESOURCE_ORDER@.subrange(17, 257), ',').len() == 6,
        split_on(RESOURCE_ORDER@.subrange(17, 257), ',')[0] == "\n          CASE WHEN season_number IS NULL THEN 1 ELSE 0 END"@,
        split_on(RESOURCE_ORDER@.subrange(17, 257), ',')[1] == "\n          season_number"@,
        split_on(RESOURCE_ORDER@.subrange(17, 257), ',')[2] == "\n          CASE WHEN episode_number IS NULL THEN 1 ELSE 0 END"@,
        split_on(RESOURCE_ORDER@.subrange(17, 257), ',')[3] == "\n          episode_number"@,
        split_on(RESOURCE_ORDER@.subrange(17, 257), ',')[4] == "\n          file_name COLLATE NOCASE"@,
        split_on(RESOURCE_ORDER@.subrange(17, 257), ',')[5] == "\n          path COLLATE NOCASE"@,
{
    lemma_page_order();
}

/// The changes that complete an older row.
pub open spec fn completion_changes() -> Seq<Seq<char>> {
    seq![
        " root_key = ?2"@,
        "\n                directory_path = ?3"@,
        "\n                media_kind = ?4"@,
        "\n                music_artist_key = ?5"@,
        "\n                series_key = ?6"@,
        "\n                family_key = ?7"@,
    ]
}

#[verifier::spinoff_prover]
#[verifier::rlimit(60)]
proof fn lemma_completion_changes()
    ensures
        split_on(UPDATE_INDEX_FIELDS@.subrange(47, 236), ',') == completion_changes(),
{
    let text = UPDATE_INDEX_FIELDS@.subrange(47, 236);
    let parts = completion_changes();
    let comma = seq![','];
    reveal_strlit(r#"
            UPDATE media_files
            SET root_key = ?2,
                directory_path = ?3,
                media_kind = ?4,
                music_artist_key = ?5,
                series_key = ?6,
                family_key = ?7
            WHERE id = ?1
            "#);
    assert(UPDATE_INDEX_FIELDS@.len() == 275);
    reveal_strlit(" root_key = ?2");
    assert(text.subrange(0, 14) =~= " root_key = ?2"@);
    assert(!" root_key = ?2"@.contains(','));
    assert(parts.take(1) =~= seq![parts[0]]);
    assert(text.take(14) =~= text.subrange(0, 14));
    assert(join(parts.take(1), comma) == text.take(14));
    reveal_strlit("\n                directory_path = ?3");
    assert(text.subrange(15, 51) =~= "\n                directory_path = ?3"@);
    assert(!"\n                directory_path = ?3"@.contains(','));
    assert(text[14] == ',');
    lemma_join_step(text, parts, 1, 14, 51);
    reveal_strlit("\n                media_kind = ?4");
    assert(text.subrange(52, 84) =~= "\n                media_kind = ?4"@);
    assert(!"\n                media_kind = ?4"@.contains(','));
    assert(text[51] == ',');
    lemma_join_step(text, parts, 2, 51, 84);
    reveal_strlit("\n                music_artist_key = ?5");
    assert(text.subrange(85, 123) =~= "\n                music_artist_key = ?5"@);
    assert(!"\n                music_artist_key = ?5"@.contains(','));
    assert(text[84] == ',');
    lemma_join_step(text, parts, 3, 84, 123);
    reveal_strlit("\n                series_key = ?6");
    assert(text.subrange(124, 156) =~= "\n                series_key = ?6"@);
    assert(!"\n                series_key = ?6"@.contains(','));
    assert(text[123] == ',');
    lemma_join_step(text, parts, 4, 123, 156);
    reveal_strlit("\n                family_key = ?7");
    assert(text.subrange(157, 189) =~= "\n                family_key = ?7"@);
    assert(!"\n                family_key = ?7"@.contains(','));
    assert(text[156] == ',');
    lemma_join_step(text, parts, 5, 156, 189);
    assert(parts.take(6) =~= parts);
    assert(text.take(189) =~= text);
    assert forall|i: int| 0 <= i < parts.len() implies !(#[trigger] parts[i]).contains(',') by {
        assert(0 <= i < 6);
    }
    joined_parts_are_found_again(parts, ',');
}

/// An older row is completed under its number: parameter by parameter the text
/// names the column and the value belongs to it.
pub proof fn older_rows_are_completed(file: ResourceVariant, resolved_root: Seq<char>, windows: bool)
    ensures
        index_fields(file, resolved_root, windows)[0] == ValueModel::Integer(file.id),
        split_on(UPDATE_INDEX_FIELDS@.subrange(47, 236), ',')[0] == " root_key = ?2"@,
        index_fields(file, resolved_root, windows)[1] == ValueModel::Text(path_key(resolved_root, windows)),
        split_on(UPDATE_INDEX_FIELDS@.subrange(47, 236), ',')[1] == "\n                directory_path = ?3"@,
        index_fields(file, resolved_root, windows)[2] == ValueModel::Text(
            directory_of(file.path@, file.root_path@, windows),
        ),
        split_on(UPDATE_INDEX_FIELDS@.subrange(47, 236), ',')[2] == "\n                media_kind = ?4"@,
        index_fields(file, resolved_root, windows)[3] == ValueModel::Text(stored_kind(file, windows)),
        split_on(UPDATE_INDEX_FIELDS@.subrange(47, 236), ',')[3] == "\n                music_artist_key = ?5"@,
        index_fields(file, resolved_root, windows)[4] == text_or_null(
            opt_source_key("music_artist"@, stored_artist(file, windows)),
        ),
        split_on(UPDATE_INDEX_FIELDS@.subrange(47, 236), ',')[4] == "\n                series_key = ?6"@,
        index_fields(file, resolved_root, windows)[5] == text_or_null(
            opt_source_key("video_series"@, detected_series(file, windows)),
        ),
        split_on(UPDATE_INDEX_FIELDS@.subrange(47, 236), ',')[5] == "\n                family_key = ?7"@,
        index_fields(file, resolved_root, windows)[6] == text_or_null(
            opt_source_key("video_series"@, stored_family(file, windows)),
        ),
{
    lemma_completion_changes();
}

} // verus!
