//! What can be asked for, what is answered, and which rules can be set: laws on
//! requests and on the statements that serve them.

use vstd::prelude::*;
use vstd::string::*;
use vstd::utf8::encode_utf8;

use crate::analysis::AnalyzedFile;
use crate::grouping::{distinct, distinct_keys_are_the_keys};
use crate::query::{
    are_group_keys, is_group_key, merge_error, merged_keys, page_count, page_error, page_filter,
    page_limit, page_select, rule_prefix, rule_statement, rule_statements, trimmed_keys,
    MergeRequest, ResourceQuery, RESOURCE_ORDER, RESOURCE_SELECT, SELECT_RULES,
};
use crate::statements::{flag, parameters, ValueModel};
use crate::store::file_values;
use crate::tables::{row_le, row_matches};
use crate::text::{ascii_lower, is_blank, text_le, texts, trimmed, CharClass};

verus! {

// ---------------------------------------------------------------------------
// Pages
// ---------------------------------------------------------------------------

/// A page that states no limit holds two hundred resources; one that states a
/// limit holds as many, and never more than five hundred.
pub proof fn pages_have_their_limit(asked: usize)
    ensures
        asked == 0 ==> page_limit(asked) == 200,
        0 < asked <= 500 ==> page_limit(asked) == asked,
        asked > 500 ==> page_limit(asked) == 500,
{
}

proof fn lemma_names_differ()
    ensures
        "music"@ != "video"@,
        "music_artist"@ != "video_series"@,
        "music_artist"@ != "directory"@,
        "video_series"@ != "directory"@,
        "music_artist"@ != "video_family"@,
        "video_series"@ != "video_family"@,
        "music_artist"@ + seq![':'] == "music_artist:"@,
        "video_series"@ + seq![':'] == "video_series:"@,
{
    reveal_strlit("music");
    reveal_strlit("video");
    reveal_strlit("music_artist");
    reveal_strlit("video_series");
    reveal_strlit("video_family");
    reveal_strlit("directory");
    reveal_strlit("music_artist:");
    reveal_strlit("video_series:");
    assert("music"@[0] != "video"@[0]);
    assert("music_artist"@[0] != "video_series"@[0]);
    assert("music_artist"@[0] != "directory"@[0]);
    assert("video_series"@[0] != "directory"@[0]);
    assert("music_artist"@[0] != "video_family"@[0]);
    assert("video_series"@[6] != "video_family"@[6]);
    assert("music_artist"@ + seq![':'] =~= "music_artist:"@);
    assert("video_series"@ + seq![':'] =~= "video_series:"@);
}

/// A page can be asked for of a directory, of artists and of series: of a
/// directory with a key that is not blank and for either kind of media, of
/// artists for music and of series for videos, with one to four hundred keys
/// that each begin with what is asked for and take up at most 512 bytes.
pub proof fn pages_can_be_asked_for(request: ResourceQuery)
    ensures
        page_error(request) is None <==> ({
            let keys = texts(request.source_keys@);
            ||| request.kind@ == "directory"@ && (request.media_kind@ == "music"@
                || request.media_kind@ == "video"@) && trimmed(
                request.key@,
                CharClass::Space,
            ).len() > 0
            ||| request.kind@ == "music_artist"@ && request.media_kind@ == "music"@ && 1
                <= keys.len() <= 400 && forall|i: int|
                0 <= i < keys.len() ==> "music_artist:"@.is_prefix_of(#[trigger] keys[i])
                    && encode_utf8(keys[i]).len() <= 512
            ||| request.kind@ == "video_series"@ && request.media_kind@ == "video"@ && 1
                <= keys.len() <= 400 && forall|i: int|
                0 <= i < keys.len() ==> "video_series:"@.is_prefix_of(#[trigger] keys[i])
                    && encode_utf8(keys[i]).len() <= 512
        }),
{
    lemma_names_differ();
    let keys = texts(request.source_keys@);
    assert(keys.len() == request.source_keys@.len());
    let prefix = request.kind@ + seq![':'];
    if are_group_keys(keys, prefix) {
        assert forall|i: int| 0 <= i < keys.len() implies prefix.is_prefix_of(#[trigger] keys[i])
            && encode_utf8(keys[i]).len() <= 512 by {
            assert(is_group_key(keys[i], prefix));
        }
    } else {
        let i = choose|i: int| 0 <= i < keys.len() && !is_group_key(#[trigger] keys[i], prefix);
        assert(!(prefix.is_prefix_of(keys[i]) && encode_utf8(keys[i]).len() <= 512));
    }
    crate::text::trimmed_text_is_empty(request.key@, CharClass::Space);
}

/// A request that is refused is told why: first that there is no such kind of
/// media, then that what is asked for does not go with it, then that there is
/// nothing like it, that the key of the directory is missing, that there are
/// too few or too many keys, or that one of them is not of the right form.
pub proof fn refused_pages_are_told_why(request: ResourceQuery)
    ensures
        ({
            let kind = request.kind@;
            let media_kind = request.media_kind@;
            let count = request.source_keys@.len();
            let is_media = media_kind == "music"@ || media_kind == "video"@;
            &&& !is_media ==> page_error(request) == Some("不支持的媒体类型"@)
            &&& kind == "music_artist"@ && media_kind == "video"@ ==> page_error(request) == Some(
                "资源分类与媒体类型不匹配"@,
            )
            &&& kind == "video_series"@ && media_kind == "music"@ ==> page_error(request) == Some(
                "资源分类与媒体类型不匹配"@,
            )
            &&& is_media && kind == "directory"@ && is_blank(request.key@) ==> page_error(request)
                == Some("目录查询缺少目录键"@)
            &&& kind == "music_artist"@ && media_kind == "music"@ && (count == 0 || count > 400)
                ==> page_error(request) == Some("分类资源键数量必须在 1 到 400 之间"@)
            &&& kind == "video_series"@ && media_kind == "video"@ && (count == 0 || count > 400)
                ==> page_error(request) == Some("分类资源键数量必须在 1 到 400 之间"@)
            &&& kind == "music_artist"@ && media_kind == "music"@ && 1 <= count <= 400
                && page_error(request) is Some ==> page_error(request) == Some("分类资源键格式无效"@)
            &&& kind == "video_series"@ && media_kind == "video"@ && 1 <= count <= 400
                && page_error(request) is Some ==> page_error(request) == Some("分类资源键格式无效"@)
            &&& is_media && kind != "directory"@ && kind != "music_artist"@ && kind
                != "video_series"@ ==> page_error(request) == Some("不支持的资源查询类型"@)
        }),
{
    lemma_names_differ();
}

/// A list of parameters is one question mark for each, with a comma and a space
/// between neighbours.
pub proof fn parameters_are_question_marks(count: nat)
    ensures
        parameters(0) == Seq::<char>::empty(),
        parameters(1) == "?"@,
        count > 0 ==> parameters(count + 1) == parameters(count) + ", "@ + "?"@,
{
    assert(Seq::new(0, |i: int| "?"@) =~= Seq::<Seq<char>>::empty());
    if count > 0 {
        assert(Seq::new((count + 1) as nat, |i: int| "?"@).drop_last() =~= Seq::new(
            count,
            |i: int| "?"@,
        ));
    }
}

/// The resources of a page are counted and read by the same condition: their
/// kind of media, and their directory, the key of their artist or the key of
/// their series. What is read has its limit and its offset behind it.
pub proof fn pages_ask_for_their_resources(request: ResourceQuery)
    ensures
        page_count(request).sql == "SELECT COUNT(*) FROM media_files WHERE "@ + page_filter(request),
        page_select(request).sql == RESOURCE_SELECT@ + page_filter(request) + RESOURCE_ORDER@,
        request.kind@ == "directory"@ ==> page_filter(request)
            == "media_kind = ? AND directory_path = ?"@,
        request.kind@ == "music_artist"@ ==> page_filter(request) == "media_kind = ? AND "@
            + "music_artist_key"@ + " IN ("@ + parameters(request.source_keys@.len()) + ")"@,
        request.kind@ == "video_series"@ ==> page_filter(request) == "media_kind = ? AND "@
            + "series_key"@ + " IN ("@ + parameters(request.source_keys@.len()) + ")"@,
{
    lemma_names_differ();
}

/// Each parameter of a page gets its value: the kind of media, the key of the
/// directory or the keys of the artists or series in their order, and for what
/// is read the limit and the offset.
pub proof fn pages_give_their_values(request: ResourceQuery)
    ensures
        ({
            let counted = page_count(request).values;
            let read = page_select(request).values;
            let count = request.source_keys@.len();
            &&& counted[0] == ValueModel::Text(request.media_kind@)
            &&& request.kind@ == "directory"@ ==> counted.len() == 2 && counted[1]
                == ValueModel::Text(request.key@)
            &&& request.kind@ != "directory"@ ==> counted.len() == 1 + count && forall|i: int|
                0 <= i < count ==> counted[1 + i] == ValueModel::Text(
                    (#[trigger] request.source_keys@[i])@,
                )
            &&& read.len() == counted.len() + 2
            &&& forall|i: int| 0 <= i < counted.len() ==> read[i] == #[trigger] counted[i]
            &&& read[counted.len() as int] == ValueModel::Integer(page_limit(request.limit) as i64)
            &&& read[counted.len() as int + 1] == ValueModel::Integer(request.offset as i64)
        }),
{
}

/// A request is about the stored files of its kind of media that lie in the
/// directory, or whose artist or series has one of the keys.
pub proof fn pages_are_about_their_files(request: ResourceQuery, file: AnalyzedFile)
    requires
        page_error(request) is None,
    ensures
        request.kind@ == "directory"@ ==> (row_matches(request, file_values(file)) <==> (
        file.media_kind@ == request.media_kind@ && file.directory_path@ == request.key@)),
        request.kind@ == "music_artist"@ ==> (row_matches(request, file_values(file)) <==> (
        file.media_kind@ == "music"@ && file.music_artist_key is Some && texts(
            request.source_keys@,
        ).contains(file.music_artist_key->0@))),
        request.kind@ == "video_series"@ ==> (row_matches(request, file_values(file)) <==> (
        file.media_kind@ == "video"@ && file.series_key is Some && texts(
            request.source_keys@,
        ).contains(file.series_key->0@))),
{
    lemma_names_differ();
}

/// The files of a page are sorted by season, then by episode, then by name and
/// then by path. A file with a season comes before one without, and of files of
/// one season one with an episode before one without. Names and paths are
/// compared without regard to the case of ASCII letters.
pub proof fn files_of_a_page_are_sorted(a: AnalyzedFile, b: AnalyzedFile)
    ensures
        ({
            let before = row_le(file_values(a), file_values(b));
            let behind = row_le(file_values(b), file_values(a));
            let names = (ascii_lower(a.file_name@), ascii_lower(b.file_name@));
            let paths = (ascii_lower(a.path@), ascii_lower(b.path@));
            &&& a.season_number matches Some(x) ==> b.season_number matches Some(y) ==> x < y
                ==> before && !behind
            &&& a.season_number is Some && b.season_number is None ==> before && !behind
            &&& a.season_number == b.season_number ==> {
                &&& a.episode_number matches Some(x) ==> b.episode_number matches Some(y) ==> x < y
                    ==> before && !behind
                &&& a.episode_number is Some && b.episode_number is None ==> before && !behind
                &&& a.episode_number == b.episode_number ==> {
                    &&& names.0 != names.1 ==> (before <==> text_le(names.0, names.1))
                    &&& names.0 == names.1 ==> (before <==> text_le(paths.0, paths.1))
                }
            }
        }),
{
}

// ---------------------------------------------------------------------------
// Rules
// ---------------------------------------------------------------------------

/// A rule is set under its kind and its key with the name, and taken back by
/// kind and key where there is no name. The rules of a kind are read by it.
pub proof fn rules_are_kept_by_kind_and_key(kind: Seq<char>, key: Seq<char>, name: Seq<char>)
    ensures
        SELECT_RULES@ == "SELECT source_key, target_name FROM merge_rules WHERE kind = ?1"@,
        name.len() == 0 ==> {
            &&& rule_statement(kind, key, name).sql
                == "DELETE FROM merge_rules WHERE kind = ?1 AND source_key = ?2"@
            &&& rule_statement(kind, key, name).values.len() == 2
            &&& rule_statement(kind, key, name).values[0] == ValueModel::Text(kind)
            &&& rule_statement(kind, key, name).values[1] == ValueModel::Text(key)
        },
        name.len() > 0 ==> {
            &&& rule_statement(kind, key, name).sql == r#"
                    INSERT INTO merge_rules (kind, source_key, target_name)
                    VALUES (?1, ?2, ?3)
                    ON CONFLICT(kind, source_key) DO UPDATE SET
                      target_name = excluded.target_name,
                      updated_at = CURRENT_TIMESTAMP
                    "#@
            &&& rule_statement(kind, key, name).values.len() == 3
            &&& rule_statement(kind, key, name).values[0] == ValueModel::Text(kind)
            &&& rule_statement(kind, key, name).values[1] == ValueModel::Text(key)
            &&& rule_statement(kind, key, name).values[2] == ValueModel::Text(name)
        },
{
}

proof fn lemma_trimmed_keys(keys: Seq<Seq<char>>, key: Seq<char>)
    ensures
        trimmed_keys(keys).contains(key) <==> key.len() > 0 && exists|i: int|
            0 <= i < keys.len() && trimmed(#[trigger] keys[i], CharClass::Space) == key,
    decreases keys.len(),
{
    if keys.len() > 0 {
        let rest = keys.drop_last();
        let before = trimmed_keys(rest);
        let last = trimmed(keys.last(), CharClass::Space);
        lemma_trimmed_keys(rest, key);
        if last.len() > 0 {
            assert(before.push(last)[before.len() as int] == last);
            if before.contains(key) {
                let at = choose|at: int| 0 <= at < before.len() && before[at] == key;
                assert(before.push(last)[at] == key);
            }
        }
        if exists|i: int|
            0 <= i < keys.len() && trimmed(#[trigger] keys[i], CharClass::Space) == key {
            let i = choose|i: int|
                0 <= i < keys.len() && trimmed(#[trigger] keys[i], CharClass::Space) == key;
            if i < rest.len() {
                assert(rest[i] == keys[i]);
            }
        }
        if exists|i: int|
            0 <= i < rest.len() && trimmed(#[trigger] rest[i], CharClass::Space) == key {
            let i = choose|i: int|
                0 <= i < rest.len() && trimmed(#[trigger] rest[i], CharClass::Space) == key;
            assert(keys[i] == rest[i]);
        }
        assert(trimmed(keys[keys.len() - 1], CharClass::Space) == last);
    }
}

/// The keys of a request are those that it lists, without the white space
/// around them and without those that are nothing else, each once.
pub proof fn requests_have_their_keys(request: MergeRequest, key: Seq<char>)
    ensures
        merged_keys(request).no_duplicates(),
        merged_keys(request).contains(key) <==> key.len() > 0 && exists|i: int|
            0 <= i < request.source_keys@.len() && trimmed(
                (#[trigger] request.source_keys@[i])@,
                CharClass::Space,
            ) == key,
{
    let keys = texts(request.source_keys@);
    distinct_keys_are_the_keys(trimmed_keys(keys));
    lemma_trimmed_keys(keys, key);
    if exists|i: int| 0 <= i < keys.len() && trimmed(#[trigger] keys[i], CharClass::Space) == key {
        let i = choose|i: int|
            0 <= i < keys.len() && trimmed(#[trigger] keys[i], CharClass::Space) == key;
        assert(keys[i] == request.source_keys@[i]@);
    }
    if exists|i: int|
        0 <= i < request.source_keys@.len() && trimmed(
            (#[trigger] request.source_keys@[i])@,
            CharClass::Space,
        ) == key {
        let i = choose|i: int|
            0 <= i < request.source_keys@.len() && trimmed(
                (#[trigger] request.source_keys@[i])@,
                CharClass::Space,
            ) == key;
        assert(keys[i] == request.source_keys@[i]@);
    }
    assert(distinct(trimmed_keys(keys)).contains(key) <==> trimmed_keys(keys).contains(key));
}

/// A key that was there before is passed over, and every other one comes behind
/// those before it.
pub proof fn keys_come_in_their_order(keys: Seq<Seq<char>>, last: Seq<char>)
    ensures
        keys.contains(last) ==> distinct(keys.push(last)) == distinct(keys),
        !keys.contains(last) ==> distinct(keys.push(last)) == distinct(keys).push(last),
{
    distinct_keys_are_the_keys(keys);
    assert(keys.push(last).drop_last() =~= keys);
    assert(distinct(keys).contains(last) <==> keys.contains(last));
}

/// Rules can be set for artists, series and families while no scan runs, for
/// one to four hundred keys that begin with what they are the keys of and take
/// up at most 512 bytes, to a name of at most 240 characters. The keys of
/// families are those of series.
pub proof fn rules_can_be_set(request: MergeRequest, scan_running: bool)
    ensures
        merge_error(request, scan_running) is None <==> ({
            let keys = merged_keys(request);
            &&& !scan_running
            &&& 1 <= keys.len() <= 400
            &&& trimmed(request.target_name@, CharClass::Space).len() <= 240
            &&& request.kind@ == "music_artist"@ || request.kind@ == "video_series"@
                || request.kind@ == "video_family"@
            &&& forall|i: int|
                0 <= i < keys.len() ==> encode_utf8(#[trigger] keys[i]).len() <= 512 && (
                if request.kind@ == "music_artist"@ {
                    "music_artist:"@.is_prefix_of(keys[i])
                } else {
                    "video_series:"@.is_prefix_of(keys[i])
                })
        }),
{
    lemma_names_differ();
    let keys = merged_keys(request);
    let prefix = rule_prefix(request.kind@);
    if are_group_keys(keys, prefix) {
        assert forall|i: int| 0 <= i < keys.len() implies prefix.is_prefix_of(#[trigger] keys[i])
            && encode_utf8(keys[i]).len() <= 512 by {
            assert(is_group_key(keys[i], prefix));
        }
    } else {
        let i = choose|i: int| 0 <= i < keys.len() && !is_group_key(#[trigger] keys[i], prefix);
        assert(!(prefix.is_prefix_of(keys[i]) && encode_utf8(keys[i]).len() <= 512));
    }
}

/// A request for rules that is refused is told why.
pub proof fn refused_rules_are_told_why(request: MergeRequest, scan_running: bool)
    ensures
        ({
            let kind = request.kind@;
            let is_kind = kind == "music_artist"@ || kind == "video_series"@ || kind
                == "video_family"@;
            let keys = merged_keys(request);
            let error = merge_error(request, scan_running);
            &&& !is_kind ==> error == Some("不支持的合并类型"@)
            &&& is_kind && scan_running ==> error == Some("扫描期间不能修改分类规则"@)
            &&& is_kind && !scan_running && keys.len() == 0 ==> error == Some("没有可合并的来源"@)
            &&& is_kind && !scan_running && keys.len() > 400 ==> error == Some(
                "合并来源数量或格式无效"@,
            )
            &&& is_kind && !scan_running && 1 <= keys.len() <= 400 && trimmed(
                request.target_name@,
                CharClass::Space,
            ).len() <= 240 && error is Some ==> error == Some("合并来源数量或格式无效"@)
            &&& is_kind && !scan_running && 1 <= keys.len() <= 400 && are_group_keys(
                keys,
                rule_prefix(kind),
            ) && trimmed(request.target_name@, CharClass::Space).len() > 240 ==> error == Some(
                "目标名称不能超过 240 个字符"@,
            )
        }),
{
}

/// A request changes the rule of each of its keys, to its name without the
/// white space around it.
pub proof fn requests_change_their_rules(request: MergeRequest, i: int)
    requires
        0 <= i < merged_keys(request).len(),
    ensures
        rule_statements(request).len() == merged_keys(request).len(),
        rule_statements(request)[i] == rule_statement(
            request.kind@,
            merged_keys(request)[i],
            trimmed(request.target_name@, CharClass::Space),
        ),
{
}

/// A flag is stored as one, and its absence as zero.
pub proof fn flags_are_one_or_zero()
    ensures
        flag(true) == ValueModel::Integer(1),
        flag(false) == ValueModel::Integer(0),
{
}

} // verus!
