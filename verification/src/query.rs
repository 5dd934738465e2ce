//! Requests: pages of resources, and changes of the rules that put groups
//! together.

use vstd::prelude::*;
use vstd::string::*;
use vstd::utf8::encode_utf8;

use crate::grouping::{distinct, distinct_keys_are_the_keys};
use crate::statements::{
    parameter_list, parameters, push_texts, statement, statement_models, text_models, text_value,
    value_models, SqlStatement, SqlValue, StatementModel, ValueModel,
};
use crate::text::{
    begins_with, blank, is_among, is_blank, same_text, texts, trim_text, trimmed, CharClass,
};
use crate::titles::source_key;

verus! {

/// How many resources a page holds if nothing is said.
pub const RESOURCE_PAGE_DEFAULT_LIMIT: usize = 200;

/// How many resources a page holds at most.
pub const RESOURCE_PAGE_MAX_LIMIT: usize = 500;

/// A request for a page of the resources of a directory or of groups.
pub struct ResourceQuery {
    pub kind: String,
    pub media_kind: String,
    pub key: String,
    pub source_keys: Vec<String>,
    pub offset: usize,
    pub limit: usize,
}

/// How a page of resources is read.
pub struct ResourcePagePlan {
    pub count: SqlStatement,
    pub select: SqlStatement,
    pub offset: usize,
    pub limit: usize,
}

/// The columns of a stored file, in the order in which they are read.
pub const RESOURCE_SELECT: &'static str = r#"
        SELECT
          id, path, file_name, root_path, file_size, duration_seconds, container,
          video_codec, audio_codec, width, height, resolution, source, release_group,
          season_number, episode_number, title_guess, media_kind, music_artist, music_album,
          music_title, music_artist_source, series_title, series_source
        FROM media_files
        WHERE "#;

/// The order of the resources of a page: by season and episode, those without
/// one last, then by name.
pub const RESOURCE_ORDER: &'static str = r#"
        ORDER BY
          CASE WHEN season_number IS NULL THEN 1 ELSE 0 END,
          season_number,
          CASE WHEN episode_number IS NULL THEN 1 ELSE 0 END,
          episode_number,
          file_name COLLATE NOCASE,
          path COLLATE NOCASE
        LIMIT ? OFFSET ?
        "#;

/// A key of a group of a kind that may be asked for.
pub open spec fn is_group_key(key: Seq<char>, prefix: Seq<char>) -> bool {
    encode_utf8(key).len() <= 512 && prefix.is_prefix_of(key)
}

/// All of these are keys of groups of a kind.
pub open spec fn are_group_keys(keys: Seq<Seq<char>>, prefix: Seq<char>) -> bool {
    forall|i: int| 0 <= i < keys.len() ==> is_group_key(#[trigger] keys[i], prefix)
}

/// Whether all of these are keys of groups of a kind.
pub fn check_group_keys(keys: &Vec<String>, prefix: &str) -> (r: bool)
    ensures
        r == are_group_keys(texts(keys@), prefix@),
{
    let ghost all = texts(keys@);
    let mut i: usize = 0;
    while i < keys.len()
        invariant
            i <= keys@.len(),
            all == texts(keys@),
            forall|j: int| 0 <= j < i ==> is_group_key(#[trigger] all[j], prefix@),
        decreases keys@.len() - i,
    {
        proof {
            assert(all[i as int] == keys@[i as int]@);
        }
        let key = keys[i].as_str();
        if key.as_bytes().len() > 512 || !begins_with(key, prefix) {
            proof {
                assert(!is_group_key(all[i as int], prefix@));
            }
            return false;
        }
        i += 1;
    }
    true
}

/// Why a page cannot be read, if it cannot.
pub open spec fn page_error(request: ResourceQuery) -> Option<Seq<char>> {
    let kind = request.kind@;
    let media_kind = request.media_kind@;
    if media_kind != "music"@ && media_kind != "video"@ {
        Some("不支持的媒体类型"@)
    } else if (kind == "music_artist"@ && media_kind != "music"@) || (kind == "video_series"@
        && media_kind != "video"@) {
        Some("资源分类与媒体类型不匹配"@)
    } else if kind == "directory"@ {
        if is_blank(request.key@) {
            Some("目录查询缺少目录键"@)
        } else {
            None
        }
    } else if kind == "music_artist"@ || kind == "video_series"@ {
        if request.source_keys@.len() == 0 || request.source_keys@.len() > 400 {
            Some("分类资源键数量必须在 1 到 400 之间"@)
        } else if !are_group_keys(texts(request.source_keys@), kind + seq![':']) {
            Some("分类资源键格式无效"@)
        } else {
            None
        }
    } else {
        Some("不支持的资源查询类型"@)
    }
}

/// Which resources a page is about.
pub open spec fn page_filter(request: ResourceQuery) -> Seq<char> {
    if request.kind@ == "directory"@ {
        "media_kind = ? AND directory_path = ?"@
    } else {
        "media_kind = ? AND "@ + (if request.kind@ == "music_artist"@ {
            "music_artist_key"@
        } else {
            "series_key"@
        }) + " IN ("@ + parameters(request.source_keys@.len()) + ")"@
    }
}

/// The values for the parameters of the filter.
pub open spec fn page_values(request: ResourceQuery) -> Seq<ValueModel> {
    seq![ValueModel::Text(request.media_kind@)] + (if request.kind@ == "directory"@ {
        seq![ValueModel::Text(request.key@)]
    } else {
        text_models(texts(request.source_keys@))
    })
}

/// How many resources a page holds.
pub open spec fn page_limit(asked: usize) -> usize {
    if asked == 0 {
        RESOURCE_PAGE_DEFAULT_LIMIT
    } else if asked > RESOURCE_PAGE_MAX_LIMIT {
        RESOURCE_PAGE_MAX_LIMIT
    } else {
        asked
    }
}

/// The statement that counts the resources that a request is about.
pub open spec fn page_count(request: ResourceQuery) -> StatementModel {
    StatementModel {
        sql: "SELECT COUNT(*) FROM media_files WHERE "@ + page_filter(request),
        values: page_values(request),
    }
}

/// The statement that reads a page: of the resources that a request is about,
/// in their order, `LIMIT` many behind the first `OFFSET`.
pub open spec fn page_select(request: ResourceQuery) -> StatementModel {
    StatementModel {
        sql: RESOURCE_SELECT@ + page_filter(request) + RESOURCE_ORDER@,
        values: page_values(request) + seq![
            ValueModel::Integer(page_limit(request.limit) as i64),
            ValueModel::Integer(request.offset as i64),
        ],
    }
}

fn filter_of(request: &ResourceQuery) -> (r: String)
    ensures
        r@ == page_filter(*request),
{
    if same_text(request.kind.as_str(), "directory") {
        "media_kind = ? AND directory_path = ?".to_string()
    } else {
        let column = if same_text(request.kind.as_str(), "music_artist") {
            "music_artist_key"
        } else {
            "series_key"
        };
        let marks = parameter_list(request.source_keys.len());
        "media_kind = ? AND ".to_string().concat(column).concat(" IN (").concat(
            marks.as_str(),
        ).concat(")")
    }
}

fn check_page(request: &ResourceQuery) -> (r: Result<(), String>)
    ensures
        match page_error(*request) {
            Some(error) => r matches Err(message) && message@ == error,
            None => r is Ok,
        },
{
    let is_music = same_text(request.media_kind.as_str(), "music");
    let is_video = same_text(request.media_kind.as_str(), "video");
    if !is_music && !is_video {
        return Err("不支持的媒体类型".to_string());
    }
    let by_artist = same_text(request.kind.as_str(), "music_artist");
    let by_series = same_text(request.kind.as_str(), "video_series");
    if (by_artist && !is_music) || (by_series && !is_video) {
        return Err("资源分类与媒体类型不匹配".to_string());
    }
    if same_text(request.kind.as_str(), "directory") {
        if blank(request.key.as_str()) {
            return Err("目录查询缺少目录键".to_string());
        }
        return Ok(());
    }
    if !by_artist && !by_series {
        return Err("不支持的资源查询类型".to_string());
    }
    if request.source_keys.len() == 0 || request.source_keys.len() > 400 {
        return Err("分类资源键数量必须在 1 到 400 之间".to_string());
    }
    let prefix = request.kind.clone().concat(":");
    proof {
        reveal_strlit(":");
        assert(prefix@ =~= request.kind@ + seq![':']);
    }
    if !check_group_keys(&request.source_keys, prefix.as_str()) {
        return Err("分类资源键格式无效".to_string());
    }
    Ok(())
}

/// How the page that is asked for is read.
pub fn load_resource_page(request: ResourceQuery) -> (r: Result<ResourcePagePlan, String>)
    ensures
        match page_error(request) {
            Some(error) => r matches Err(message) && message@ == error,
            None => {
                &&& r matches Ok(plan)
                &&& plan.offset == request.offset
                &&& plan.limit == page_limit(request.limit)
                &&& plan.count.model() == page_count(request)
                &&& plan.select.model() == page_select(request)
            },
        },
{
    check_page(&request)?;
    let filter = filter_of(&request);
    let limit = if request.limit == 0 {
        RESOURCE_PAGE_DEFAULT_LIMIT
    } else if request.limit > RESOURCE_PAGE_MAX_LIMIT {
        RESOURCE_PAGE_MAX_LIMIT
    } else {
        request.limit
    };
    let count_sql = "SELECT COUNT(*) FROM media_files WHERE ".to_string().concat(filter.as_str());
    let select_sql = RESOURCE_SELECT.to_string().concat(filter.as_str()).concat(RESOURCE_ORDER);
    let count_values = page_value_list(&request);
    let mut select_values = page_value_list(&request);
    let ghost before = select_values@;
    select_values.push(SqlValue::Integer(limit as i64));
    select_values.push(SqlValue::Integer(request.offset as i64));
    proof {
        assert(value_models(select_values@) =~= value_models(before) + seq![
            ValueModel::Integer(limit as i64),
            ValueModel::Integer(request.offset as i64),
        ]);
    }
    Ok(
        ResourcePagePlan {
            count: statement(count_sql.as_str(), count_values),
            select: statement(select_sql.as_str(), select_values),
            offset: request.offset,
            limit,
        },
    )
}

fn page_value_list(request: &ResourceQuery) -> (r: Vec<SqlValue>)
    ensures
        value_models(r@) == page_values(*request),
{
    let mut values: Vec<SqlValue> = Vec::new();
    values.push(text_value(request.media_kind.as_str()));
    if same_text(request.kind.as_str(), "directory") {
        values.push(text_value(request.key.as_str()));
        proof {
            assert(value_models(values@) =~= page_values(*request));
        }
    } else {
        proof {
            assert(value_models(values@) =~= seq![ValueModel::Text(request.media_kind@)]);
        }
        let keys = copy_texts(&request.source_keys);
        push_texts(&mut values, keys);
    }
    values
}

fn copy_texts(list: &Vec<String>) -> (r: Vec<String>)
    ensures
        texts(r@) == texts(list@),
{
    let mut copy: Vec<String> = Vec::new();
    let mut i: usize = 0;
    while i < list.len()
        invariant
            i <= list@.len(),
            copy@ =~= list@.take(i as int),
        decreases list@.len() - i,
    {
        copy.push(list[i].clone());
        i += 1;
    }
    proof {
        assert(list@.take(list@.len() as int) =~= list@);
    }
    copy
}

// ---------------------------------------------------------------------------
// Merge rules
// ---------------------------------------------------------------------------

/// A request to give groups a name, or to take their rules back.
pub struct MergeRequest {
    pub kind: String,
    pub source_keys: Vec<String>,
    pub target_name: String,
}

/// The rules of a kind.
pub const SELECT_RULES: &'static str =
    "SELECT source_key, target_name FROM merge_rules WHERE kind = ?1";

/// Takes a rule back.
pub const DELETE_RULE: &'static str = "DELETE FROM merge_rules WHERE kind = ?1 AND source_key = ?2";

/// Adds a rule or changes it.
pub const UPSERT_RULE: &'static str = r#"
                    INSERT INTO merge_rules (kind, source_key, target_name)
                    VALUES (?1, ?2, ?3)
                    ON CONFLICT(kind, source_key) DO UPDATE SET
                      target_name = excluded.target_name,
                      updated_at = CURRENT_TIMESTAMP
                    "#;

/// The keys without white space around them, without those that are blank.
pub open spec fn trimmed_keys(keys: Seq<Seq<char>>) -> Seq<Seq<char>>
    decreases keys.len(),
{
    if keys.len() == 0 {
        Seq::empty()
    } else {
        let before = trimmed_keys(keys.drop_last());
        let last = trimmed(keys.last(), CharClass::Space);
        if last.len() == 0 {
            before
        } else {
            before.push(last)
        }
    }
}

/// The keys that a request is about: each once, without white space around.
pub open spec fn merged_keys(request: MergeRequest) -> Seq<Seq<char>> {
    distinct(trimmed_keys(texts(request.source_keys@)))
}

/// What the keys of a kind of rules begin with.
pub open spec fn rule_prefix(kind: Seq<char>) -> Seq<char> {
    if kind == "music_artist"@ {
        "music_artist:"@
    } else {
        "video_series:"@
    }
}

/// There are rules of this kind.
pub open spec fn is_rule_kind(kind: Seq<char>) -> bool {
    kind == "music_artist"@ || kind == "video_series"@ || kind == "video_family"@
}

/// Why rules cannot be changed, if they cannot.
pub open spec fn merge_error(request: MergeRequest, scan_running: bool) -> Option<Seq<char>> {
    let kind = request.kind@;
    let keys = merged_keys(request);
    if !is_rule_kind(kind) {
        Some("不支持的合并类型"@)
    } else if scan_running {
        Some("扫描期间不能修改分类规则"@)
    } else if keys.len() == 0 {
        Some("没有可合并的来源"@)
    } else if keys.len() > 400 || !are_group_keys(keys, rule_prefix(kind)) {
        Some("合并来源数量或格式无效"@)
    } else if trimmed(request.target_name@, CharClass::Space).len() > 240 {
        Some("目标名称不能超过 240 个字符"@)
    } else {
        None
    }
}

/// The statement that changes the rule of a key: without a name it is taken
/// back.
pub open spec fn rule_statement(kind: Seq<char>, key: Seq<char>, name: Seq<char>) -> StatementModel {
    if name.len() == 0 {
        StatementModel {
            sql: DELETE_RULE@,
            values: seq![ValueModel::Text(kind), ValueModel::Text(key)],
        }
    } else {
        StatementModel {
            sql: UPSERT_RULE@,
            values: seq![ValueModel::Text(kind), ValueModel::Text(key), ValueModel::Text(name)],
        }
    }
}

/// The statements that change the rules of a request, one for each key.
pub open spec fn rule_statements(request: MergeRequest) -> Seq<StatementModel> {
    merged_keys(request).map_values(
        |key: Seq<char>|
            rule_statement(request.kind@, key, trimmed(request.target_name@, CharClass::Space)),
    )
}

fn unique_keys(keys: &Vec<String>) -> (r: Vec<String>)
    ensures
        texts(r@) == distinct(trimmed_keys(texts(keys@))),
{
    let ghost all = texts(keys@);
    let mut unique: Vec<String> = Vec::new();
    let mut i: usize = 0;
    proof {
        assert(all.take(0) =~= Seq::empty());
        assert(texts(unique@) =~= Seq::empty());
    }
    while i < keys.len()
        invariant
            i <= keys@.len(),
            all == texts(keys@),
            texts(unique@) == distinct(trimmed_keys(all.take(i as int))),
        decreases keys@.len() - i,
    {
        let ghost seen = trimmed_keys(all.take(i as int));
        proof {
            assert(all.take(i + 1).drop_last() =~= all.take(i as int));
            assert(all.take(i + 1).last() == keys@[i as int]@);
        }
        let key = trim_text(keys[i].as_str());
        if !key.as_str().is_empty() {
            let ghost before = unique@;
            let ghost added = key@;
            proof {
                assert(seen.push(added).drop_last() =~= seen);
                assert(seen.push(added).last() == added);
            }
            if !is_among(key.as_str(), &unique) {
                unique.push(key);
                proof {
                    assert(texts(unique@) =~= texts(before).push(added));
                }
            }
        }
        i += 1;
    }
    proof {
        assert(all.take(keys@.len() as int) =~= all);
    }
    unique
}

fn change_rule(kind: &str, key: &str, name: &str) -> (r: SqlStatement)
    ensures
        r.model() == rule_statement(kind@, key@, name@),
{
    let mut values: Vec<SqlValue> = Vec::new();
    values.push(text_value(kind));
    values.push(text_value(key));
    if name.is_empty() {
        let r = statement(DELETE_RULE, values);
        proof {
            assert(r.model().values =~= rule_statement(kind@, key@, name@).values);
        }
        r
    } else {
        values.push(text_value(name));
        let r = statement(UPSERT_RULE, values);
        proof {
            assert(r.model().values =~= rule_statement(kind@, key@, name@).values);
        }
        r
    }
}

/// Whether there are rules of this kind; this is tested before anything else.
pub fn check_merge_kind(kind: &str) -> (r: Result<(), String>)
    ensures
        r is Ok <==> is_rule_kind(kind@),
        r matches Err(message) ==> message@ == "不支持的合并类型"@,
{
    if same_text(kind, "music_artist") || same_text(kind, "video_series") || same_text(
        kind,
        "video_family",
    ) {
        Ok(())
    } else {
        Err("不支持的合并类型".to_string())
    }
}

/// The statements that change the rules of a request, or why they cannot be
/// changed.
pub fn set_merge_rules(request: MergeRequest, scan_running: bool) -> (r: Result<
    Vec<SqlStatement>,
    String,
>)
    ensures
        match merge_error(request, scan_running) {
            Some(error) => r matches Err(message) && message@ == error,
            None => r matches Ok(statements) && statement_models(statements@) == rule_statements(
                request,
            ),
        },
{
    let kind = request.kind.as_str();
    check_merge_kind(kind)?;
    let by_artist = same_text(kind, "music_artist");
    if scan_running {
        return Err("扫描期间不能修改分类规则".to_string());
    }
    let prefix = if by_artist {
        "music_artist:"
    } else {
        "video_series:"
    };
    let keys = unique_keys(&request.source_keys);
    proof {
        assert(texts(keys@).len() == keys@.len());
    }
    if keys.len() == 0 {
        return Err("没有可合并的来源".to_string());
    }
    if keys.len() > 400 || !check_group_keys(&keys, prefix) {
        return Err("合并来源数量或格式无效".to_string());
    }
    let name = trim_text(request.target_name.as_str());
    if name.as_str().unicode_len() > 240 {
        return Err("目标名称不能超过 240 个字符".to_string());
    }
    let ghost all = rule_statements(request);
    let mut statements: Vec<SqlStatement> = Vec::new();
    let mut i: usize = 0;
    while i < keys.len()
        invariant
            i <= keys@.len(),
            texts(keys@) == merged_keys(request),
            kind@ == request.kind@,
            name@ == trimmed(request.target_name@, CharClass::Space),
            all == rule_statements(request),
            all.len() == keys@.len(),
            statements@.len() == i,
            forall|j: int| 0 <= j < i ==> (#[trigger] statements@[j]).model() == all[j],
        decreases keys@.len() - i,
    {
        proof {
            assert(texts(keys@)[i as int] == keys@[i as int]@);
        }
        statements.push(change_rule(kind, keys[i].as_str(), name.as_str()));
        i += 1;
    }
    proof {
        assert(statement_models(statements@) =~= all);
    }
    Ok(statements)
}

// ---------------------------------------------------------------------------
// Laws
// ---------------------------------------------------------------------------

/// The key of a group begins with its kind, so that it can be asked for and
/// given a rule, if it is short enough.
pub proof fn group_keys_can_be_asked_for(name: Seq<char>)
    ensures
        rule_prefix("music_artist"@).is_prefix_of(source_key("music_artist"@, name)),
        rule_prefix("video_series"@).is_prefix_of(source_key("video_series"@, name)),
        encode_utf8(source_key("music_artist"@, name)).len() <= 512 ==> is_group_key(
            source_key("music_artist"@, name),
            rule_prefix("music_artist"@),
        ),
        encode_utf8(source_key("video_series"@, name)).len() <= 512 ==> is_group_key(
            source_key("video_series"@, name),
            rule_prefix("video_series"@),
        ),
{
    reveal_strlit("music_artist");
    reveal_strlit("video_series");
    reveal_strlit("music_artist:");
    reveal_strlit("video_series:");
    assert("music_artist:"@ =~= "music_artist"@ + seq![':']);
    assert("video_series:"@ =~= "video_series"@ + seq![':']);
    assert("music_artist"@[0] != "video_series"@[0]);
    assert(rule_prefix("music_artist"@) == "music_artist:"@);
    assert(rule_prefix("video_series"@) == "video_series:"@);
}

/// Whatever is asked for, a page holds between one and five hundred resources.
pub proof fn pages_are_bounded(asked: usize)
    ensures
        1 <= page_limit(asked) <= RESOURCE_PAGE_MAX_LIMIT,
{
}

/// A request changes the rule of each of its keys once.
pub proof fn each_key_is_changed_once(request: MergeRequest)
    ensures
        merged_keys(request).no_duplicates(),
        rule_statements(request).len() == merged_keys(request).len(),
{
    distinct_keys_are_the_keys(trimmed_keys(texts(request.source_keys@)));
}

/// Two requests ask for pages of the same list.
pub open spec fn same_list(a: ResourceQuery, b: ResourceQuery) -> bool {
    &&& a.kind@ == b.kind@
    &&& a.media_kind@ == b.media_kind@
    &&& a.key@ == b.key@
    &&& texts(a.source_keys@) == texts(b.source_keys@)
    &&& a.limit == b.limit
}

/// Pages of the same list are read by the same statement, with the same values,
/// the same order and the same limit: only the offset differs. They are counted
/// and refused alike.
pub proof fn pages_share_their_list(a: ResourceQuery, b: ResourceQuery)
    requires
        same_list(a, b),
    ensures
        page_error(a) == page_error(b),
        page_count(a) == page_count(b),
        page_limit(a.limit) == page_limit(b.limit),
        page_select(a).sql == page_select(b).sql,
        page_select(a).values.drop_last() == page_select(b).values.drop_last(),
        page_select(a).values.last() == ValueModel::Integer(a.offset as i64),
        page_select(b).values.last() == ValueModel::Integer(b.offset as i64),
{
    assert(texts(a.source_keys@).len() == a.source_keys@.len());
    assert(texts(b.source_keys@).len() == b.source_keys@.len());
    assert(page_select(a).values.drop_last() =~= page_values(a).push(
        ValueModel::Integer(page_limit(a.limit) as i64),
    ));
    assert(page_select(b).values.drop_last() =~= page_values(b).push(
        ValueModel::Integer(page_limit(b.limit) as i64),
    ));
}

/// What `LIMIT` and `OFFSET` leave of a list: so many items behind so many.
pub open spec fn page_of<T>(rows: Seq<T>, limit: nat, offset: nat) -> Seq<T> {
    rows.skip(
        if offset < rows.len() {
            offset as int
        } else {
            rows.len() as int
        },
    ).take(
        if offset + limit < rows.len() {
            limit as int
        } else if offset < rows.len() {
            rows.len() - offset
        } else {
            0
        },
    )
}

/// The first pages of a list, one after the other.
pub open spec fn first_pages<T>(rows: Seq<T>, limit: nat, count: nat) -> Seq<T>
    decreases count,
{
    if count == 0 {
        Seq::empty()
    } else {
        first_pages(rows, limit, (count - 1) as nat) + page_of(
            rows,
            limit,
            ((count - 1) * limit) as nat,
        )
    }
}

/// A page holds as many rows as its limit, or as there are behind its offset.
/// Pages that follow each other hold the rows of the list from the first on, in
/// their order and each once, and enough of them hold them all.
pub proof fn pages_hold_every_row_once<T>(rows: Seq<T>, asked: usize, offset: nat, count: nat)
    ensures
        ({
            let limit = page_limit(asked) as nat;
            &&& page_of(rows, limit, offset).len() == (if offset >= rows.len() {
                0
            } else if offset + limit < rows.len() {
                limit as int
            } else {
                rows.len() - offset
            })
            &&& count * limit <= rows.len() ==> first_pages(rows, limit, count) == rows.take(
                (count * limit) as int,
            )
            &&& count * limit >= rows.len() ==> first_pages(rows, limit, count) == rows
        }),
{
    lemma_first_pages(rows, page_limit(asked) as nat, count);
}

#[verifier::spinoff_prover]
proof fn lemma_first_pages<T>(rows: Seq<T>, limit: nat, count: nat)
    ensures
        count * limit <= rows.len() ==> first_pages(rows, limit, count) == rows.take(
            (count * limit) as int,
        ),
        count * limit >= rows.len() ==> first_pages(rows, limit, count) == rows,
    decreases count,
{
    let end: int = (count * limit) as int;
    if count == 0 {
        assert(end == 0) by (nonlinear_arith)
            requires
                end == (count * limit) as int,
                count == 0,
        ;
        assert(first_pages(rows, limit, count) =~= rows.take(0));
        if rows.len() == 0 {
            assert(rows =~= Seq::empty());
        }
    } else {
        let before = (count - 1) as nat;
        let offset: int = (before * limit) as int;
        lemma_first_pages(rows, limit, before);
        assert(end == offset + limit && offset >= 0) by (nonlinear_arith)
            requires
                end == (count * limit) as int,
                offset == (before * limit) as int,
                count == before + 1,
        ;
        let page = page_of(rows, limit, offset as nat);
        let earlier = first_pages(rows, limit, before);
        assert(first_pages(rows, limit, count) == earlier + page);
        if offset >= rows.len() {
            assert(earlier == rows);
            assert(page =~= Seq::empty());
            assert(earlier + page =~= rows);
            assert(rows.take(rows.len() as int) =~= rows);
        } else if end <= rows.len() {
            assert(earlier == rows.take(offset));
            assert(page =~= rows.subrange(offset, end));
            assert(earlier + page =~= rows.take(end));
            assert(rows.take(rows.len() as int) =~= rows);
        } else {
            assert(earlier == rows.take(offset));
            assert(page =~= rows.skip(offset));
            assert(earlier + page =~= rows);
        }
    }
}

/// The stored rules: the name for a kind and a key.
pub type RuleTable = Map<(Seq<char>, Seq<char>), Seq<char>>;

/// The rules after one of the two statements that change them. The row of a
/// kind and a key is the only one that either of them touches.
pub open spec fn table_after(table: RuleTable, change: StatementModel) -> RuleTable {
    let values = change.values;
    if change.sql == DELETE_RULE@ && values.len() == 2 && values[0] is Text && values[1] is Text {
        table.remove((values[0]->Text_0, values[1]->Text_0))
    } else if change.sql == UPSERT_RULE@ && values.len() == 3 && values[0] is Text
        && values[1] is Text && values[2] is Text {
        table.insert((values[0]->Text_0, values[1]->Text_0), values[2]->Text_0)
    } else {
        table
    }
}

/// The rules after statements that change them.
pub open spec fn table_after_all(table: RuleTable, changes: Seq<StatementModel>) -> RuleTable
    decreases changes.len(),
{
    if changes.len() == 0 {
        table
    } else {
        table_after(table_after_all(table, changes.drop_last()), changes.last())
    }
}

/// A request is about the rule of this kind and key.
pub open spec fn is_asked_for(request: MergeRequest, rule: (Seq<char>, Seq<char>)) -> bool {
    rule.0 == request.kind@ && merged_keys(request).contains(rule.1)
}

/// The name that a request gives.
pub open spec fn asked_name(request: MergeRequest) -> Seq<char> {
    trimmed(request.target_name@, CharClass::Space)
}

/// `after` is `table` with the rules of a kind and keys set to a name, or taken
/// back where the name is empty; no other rule differs.
spec fn is_changed(
    table: RuleTable,
    after: RuleTable,
    kind: Seq<char>,
    keys: Seq<Seq<char>>,
    name: Seq<char>,
) -> bool {
    forall|rule: (Seq<char>, Seq<char>)|
        {
            &&& #[trigger] after.contains_key(rule) <==> (if rule.0 == kind && keys.contains(
                rule.1,
            ) {
                name.len() > 0
            } else {
                table.contains_key(rule)
            })
            &&& after.contains_key(rule) ==> after[rule] == (if rule.0 == kind && keys.contains(
                rule.1,
            ) {
                name
            } else {
                table[rule]
            })
        }
}

proof fn lemma_table_after(
    table: RuleTable,
    kind: Seq<char>,
    keys: Seq<Seq<char>>,
    name: Seq<char>,
)
    ensures
        is_changed(
            table,
            table_after_all(
                table,
                keys.map_values(|key: Seq<char>| rule_statement(kind, key, name)),
            ),
            kind,
            keys,
            name,
        ),
    decreases keys.len(),
{
    let changes = keys.map_values(|key: Seq<char>| rule_statement(kind, key, name));
    if keys.len() > 0 {
        let rest = keys.drop_last();
        let last = keys.last();
        lemma_table_after(table, kind, rest, name);
        assert(changes.drop_last() =~= rest.map_values(
            |key: Seq<char>| rule_statement(kind, key, name),
        ));
        let before = table_after_all(table, changes.drop_last());
        let after = table_after_all(table, changes);
        assert(changes.last() == rule_statement(kind, last, name));
        assert(after == (if name.len() == 0 {
            before.remove((kind, last))
        } else {
            before.insert((kind, last), name)
        }));
        assert forall|key: Seq<char>| #[trigger] keys.contains(key) <==> rest.contains(key) || key
            == last by {
            if keys.contains(key) && key != last {
                let i = choose|i: int| 0 <= i < keys.len() && keys[i] == key;
                assert(rest[i] == key);
            }
            if rest.contains(key) {
                let i = choose|i: int| 0 <= i < rest.len() && rest[i] == key;
                assert(keys[i] == key);
            }
            assert(keys[keys.len() - 1] == last);
        }
        assert forall|rule: (Seq<char>, Seq<char>)|
            {
                &&& #[trigger] after.contains_key(rule) <==> (if rule.0 == kind && keys.contains(
                    rule.1,
                ) {
                    name.len() > 0
                } else {
                    table.contains_key(rule)
                })
                &&& after.contains_key(rule) ==> after[rule] == (if rule.0 == kind && keys.contains(
                    rule.1,
                ) {
                    name
                } else {
                    table[rule]
                })
            } by {
            assert(keys.contains(rule.1) <==> rest.contains(rule.1) || rule.1 == last);
            assert(before.contains_key(rule) <==> (if rule.0 == kind && rest.contains(rule.1) {
                name.len() > 0
            } else {
                table.contains_key(rule)
            }));
        }
    }
}

/// A request sets the rules of its kind and keys to its name, or takes them
/// back where it gives none, and changes no other rule.
pub proof fn rules_change_as_asked(request: MergeRequest, table: RuleTable)
    ensures
        ({
            let after = table_after_all(table, rule_statements(request));
            forall|rule: (Seq<char>, Seq<char>)|
                {
                    &&& #[trigger] after.contains_key(rule) <==> (if is_asked_for(request, rule) {
                        asked_name(request).len() > 0
                    } else {
                        table.contains_key(rule)
                    })
                    &&& after.contains_key(rule) ==> after[rule] == (if is_asked_for(
                        request,
                        rule,
                    ) {
                        asked_name(request)
                    } else {
                        table[rule]
                    })
                }
        }),
{
    lemma_table_after(table, request.kind@, merged_keys(request), asked_name(request));
    assert(rule_statements(request) =~= merged_keys(request).map_values(
        |key: Seq<char>| rule_statement(request.kind@, key, asked_name(request)),
    ));
}

/// Setting rules that were not there and taking them back leaves the rules as
/// they were.
pub proof fn taking_back_restores_the_rules(
    set: MergeRequest,
    back: MergeRequest,
    table: RuleTable,
)
    requires
        set.kind@ == back.kind@,
        forall|key: Seq<char>| #[trigger]
            merged_keys(set).contains(key) <==> merged_keys(back).contains(key),
        asked_name(back).len() == 0,
        forall|rule: (Seq<char>, Seq<char>)| #[trigger]
            is_asked_for(set, rule) ==> !table.contains_key(rule),
    ensures
        table_after_all(
            table_after_all(table, rule_statements(set)),
            rule_statements(back),
        ) == table,
{
    let between = table_after_all(table, rule_statements(set));
    let after = table_after_all(between, rule_statements(back));
    rules_change_as_asked(set, table);
    rules_change_as_asked(back, between);
    assert forall|rule: (Seq<char>, Seq<char>)| #[trigger]
        after.contains_key(rule) <==> table.contains_key(rule) by {
        assert(is_asked_for(set, rule) <==> is_asked_for(back, rule));
        assert(between.contains_key(rule) <==> (if is_asked_for(set, rule) {
            asked_name(set).len() > 0
        } else {
            table.contains_key(rule)
        }));
    }
    assert forall|rule: (Seq<char>, Seq<char>)| #[trigger] after.contains_key(rule) implies after[rule]
        == table[rule] by {
        assert(is_asked_for(set, rule) <==> is_asked_for(back, rule));
        assert(between.contains_key(rule));
    }
    assert(after =~= table);
}

/// Whatever name is given, statements for the same kind and keys touch the same
/// rules: those of the kind and the distinct trimmed keys, each once.
pub proof fn changes_name_each_key_once(request: MergeRequest, i: int)
    requires
        0 <= i < rule_statements(request).len(),
    ensures
        rule_statements(request).len() == merged_keys(request).len(),
        merged_keys(request).no_duplicates(),
        rule_statements(request)[i].values[0] == ValueModel::Text(request.kind@),
        rule_statements(request)[i].values[1] == ValueModel::Text(merged_keys(request)[i]),
{
    each_key_is_changed_once(request);
}

} // verus!
