use media_administrator::json::parse_string_list_json;
use media_administrator::query::{
    check_merge_kind, load_resource_page, set_merge_rules, MergeRequest, ResourceQuery,
};
use media_administrator::schema::{
    add_column_if_missing, check_integrity, init_schema, migrate_scan_skips, required_columns,
    ColumnSpec, TableColumns,
};
use media_administrator::statements::{parameter_list, SqlValue};
use media_administrator::store::{
    check_scan_finished, create_scan_run, list_scan_skips, load_last_scan_config, load_scan_run,
    load_scan_skips, StoredScanRun,
};

fn query(kind: &str, media_kind: &str, key: &str, source_keys: Vec<&str>) -> ResourceQuery {
    ResourceQuery {
        kind: kind.to_string(),
        media_kind: media_kind.to_string(),
        key: key.to_string(),
        source_keys: source_keys.iter().map(|key| key.to_string()).collect(),
        offset: 0,
        limit: 10,
    }
}

fn page_error(request: ResourceQuery) -> String {
    match load_resource_page(request) {
        Ok(_) => panic!("the page can be read"),
        Err(error) => error,
    }
}

fn merge(kind: &str, source_keys: Vec<String>, target_name: &str) -> MergeRequest {
    MergeRequest {
        kind: kind.to_string(),
        source_keys,
        target_name: target_name.to_string(),
    }
}

fn merge_error(request: MergeRequest, running: bool) -> String {
    match set_merge_rules(request, running) {
        Ok(_) => panic!("the rules can be changed"),
        Err(error) => error,
    }
}

fn texts(values: &Vec<SqlValue>) -> Vec<String> {
    values
        .iter()
        .map(|value| match value {
            SqlValue::Null => "null".to_string(),
            SqlValue::Integer(number) => number.to_string(),
            SqlValue::Real(seconds) => f64::from_bits(seconds.bits).to_string(),
            SqlValue::Text(text) => text.clone(),
        })
        .collect()
}

#[test]
fn pages_fail_with_their_reason() {
    assert_eq!(page_error(query("directory", "image", "/a", vec![])), "不支持的媒体类型");
    assert_eq!(
        page_error(query("music_artist", "video", "", vec!["music_artist:a"])),
        "资源分类与媒体类型不匹配"
    );
    assert_eq!(
        page_error(query("video_series", "music", "", vec!["video_series:a"])),
        "资源分类与媒体类型不匹配"
    );
    assert_eq!(page_error(query("directory", "music", " ", vec![])), "目录查询缺少目录键");
    assert_eq!(
        page_error(query("music_artist", "music", "", vec![])),
        "分类资源键数量必须在 1 到 400 之间"
    );
    assert_eq!(
        page_error(query("music_artist", "music", "", vec!["music_artist:a"; 401])),
        "分类资源键数量必须在 1 到 400 之间"
    );
    assert_eq!(
        page_error(query("music_artist", "music", "", vec!["video_series:a"])),
        "分类资源键格式无效"
    );
    let long = format!("music_artist:{}", "é".repeat(250));
    assert_eq!(
        page_error(query("music_artist", "music", "", vec![long.as_str()])),
        "分类资源键格式无效"
    );
    assert_eq!(page_error(query("other", "music", "", vec![])), "不支持的资源查询类型");
}

#[test]
fn pages_are_read_by_group() {
    let mut request = query("video_series", "video", "", vec!["video_series:a", "video_series:b"]);
    request.limit = 0;
    request.offset = 30;
    let plan = match load_resource_page(request) {
        Ok(plan) => plan,
        Err(error) => panic!("{error}"),
    };
    assert_eq!(
        plan.count.sql,
        "SELECT COUNT(*) FROM media_files WHERE media_kind = ? AND series_key IN (?, ?)"
    );
    assert_eq!(
        texts(&plan.count.values),
        vec!["video", "video_series:a", "video_series:b"]
    );
    assert!(plan
        .select
        .sql
        .contains("WHERE media_kind = ? AND series_key IN (?, ?)\n"));
    assert_eq!(
        texts(&plan.select.values),
        vec!["video", "video_series:a", "video_series:b", "200", "30"]
    );
    assert_eq!(plan.limit, 200);
    assert_eq!(plan.offset, 30);

    let mut request = query("music_artist", "music", "", vec!["music_artist:a"]);
    request.limit = 9999;
    match load_resource_page(request) {
        Ok(plan) => {
            assert_eq!(plan.limit, 500);
            assert!(plan.count.sql.ends_with("music_artist_key IN (?)"));
        }
        Err(error) => panic!("{error}"),
    }
    assert_eq!(parameter_list(0), "");
    assert_eq!(parameter_list(3), "?, ?, ?");
}

#[test]
fn rule_changes_fail_with_their_reason() {
    let keys = || vec!["music_artist:a".to_string()];
    assert_eq!(merge_error(merge("other", keys(), "x"), false), "不支持的合并类型");
    assert_eq!(check_merge_kind("other").err().as_deref(), Some("不支持的合并类型"));
    assert!(check_merge_kind("video_family").is_ok());
    assert_eq!(
        merge_error(merge("music_artist", keys(), "x"), true),
        "扫描期间不能修改分类规则"
    );
    assert_eq!(
        merge_error(merge("music_artist", vec![" ".to_string()], "x"), false),
        "没有可合并的来源"
    );
    assert_eq!(
        merge_error(merge("video_series", keys(), "x"), false),
        "合并来源数量或格式无效"
    );
    let many = (0..401).map(|number| format!("music_artist:{number}")).collect();
    assert_eq!(
        merge_error(merge("music_artist", many, "x"), false),
        "合并来源数量或格式无效"
    );
    assert_eq!(
        merge_error(merge("music_artist", keys(), &"é".repeat(241)), false),
        "目标名称不能超过 240 个字符"
    );
    assert!(set_merge_rules(merge("music_artist", keys(), &"é".repeat(240)), false).is_ok());
}

#[test]
fn family_rules_are_about_series() {
    let keys = vec!["video_series:a".to_string(), " video_series:a".to_string()];
    let statements = match set_merge_rules(merge("video_family", keys, " Family "), false) {
        Ok(statements) => statements,
        Err(error) => panic!("{error}"),
    };
    assert_eq!(statements.len(), 1);
    assert_eq!(
        texts(&statements[0].values),
        vec!["video_family", "video_series:a", "Family"]
    );
    assert!(statements[0].sql.contains("INSERT INTO merge_rules"));

    let keys = vec!["video_series:a".to_string()];
    match set_merge_rules(merge("video_family", keys, " "), false) {
        Ok(statements) => {
            assert_eq!(
                statements[0].sql,
                "DELETE FROM merge_rules WHERE kind = ?1 AND source_key = ?2"
            );
            assert_eq!(texts(&statements[0].values), vec!["video_family", "video_series:a"]);
        }
        Err(error) => panic!("{error}"),
    }
}

#[test]
fn scans_have_positive_numbers() {
    match list_scan_skips(0) {
        Ok(_) => panic!("there is no scan 0"),
        Err(error) => assert_eq!(error, "扫描记录编号无效"),
    }
    match list_scan_skips(3) {
        Ok(statement) => {
            assert!(statement.sql.contains("is_short_video = 0"));
            assert_eq!(texts(&statement.values), vec!["3"]);
        }
        Err(error) => panic!("{error}"),
    }
    assert!(!load_scan_skips(3, true).sql.contains("is_short_video = 0"));
    assert_eq!(check_scan_finished(1, 5), Ok(()));
    assert_eq!(check_scan_finished(0, 5), Err("扫描历史 5 不存在".to_string()));
}

#[test]
fn lists_are_stored_as_json() {
    let statement = match create_scan_run(
        8,
        &vec!["a\"b".to_string(), "目录".to_string()],
        &vec![],
    ) {
        Ok(statement) => statement,
        Err(error) => panic!("{error}"),
    };
    assert_eq!(texts(&statement.values), vec!["8", r#"["a\"b","目录"]"#, "[]"]);
    assert_eq!(
        parse_string_list_json(r#"["a\"b","目录"]"#, "x"),
        Ok(vec!["a\"b".to_string(), "目录".to_string()])
    );
    match parse_string_list_json("nothing", "扫描历史 1 的扫描目录") {
        Ok(_) => panic!("no list"),
        Err(error) => assert!(error.starts_with("扫描历史 1 的扫描目录格式损坏：")),
    }
}

fn row(paths_json: &str, excluded_paths_json: &str) -> StoredScanRun {
    StoredScanRun {
        id: 4,
        started_at_ms: 1,
        completed_at_ms: 2,
        duration_ms: 3,
        scanned_files: 4,
        imported_files: 5,
        skipped_files: 6,
        skipped_short_files: 7,
        recorded_directories: 8,
        ffprobe_missing: 1,
        status: "completed".to_string(),
        error_message: Some("none".to_string()),
        paths_json: paths_json.to_string(),
        excluded_paths_json: excluded_paths_json.to_string(),
        created_at: "now".to_string(),
    }
}

#[test]
fn history_rows_are_read() {
    let run = match load_scan_run(row(r#"["/a"]"#, "[]"), Ok(vec![])) {
        Ok(run) => run,
        Err(error) => panic!("{error}"),
    };
    assert_eq!(run.id, 4);
    assert_eq!(run.recorded_directories, 8);
    assert!(run.ffprobe_missing);
    assert_eq!(run.error_message.as_deref(), Some("none"));
    assert_eq!(run.paths, vec!["/a".to_string()]);
    assert!(run.excluded_paths.is_empty());
    assert_eq!(run.created_at, "now");

    let error = |result: Result<_, String>| match result {
        Ok(_) => panic!("the row is corrupt"),
        Err(error) => error,
    };
    assert_eq!(
        error(load_scan_run(row("x", "x"), Err("bad".to_string())).map(|run| run.id)),
        "扫描历史 4 的失败目录格式损坏：bad"
    );
    assert!(error(load_scan_run(row("x", "x"), Ok(vec![])).map(|run| run.id))
        .starts_with("扫描历史 4 的扫描目录格式损坏："));
    assert!(error(load_scan_run(row("[]", "x"), Ok(vec![])).map(|run| run.id))
        .starts_with("扫描历史 4 的排除目录格式损坏："));
    assert!(load_last_scan_config(Some((1, "[]".to_string(), "{}".to_string()))).is_err());
}

#[test]
fn missing_columns_are_added() {
    let wanted = ColumnSpec {
        table: "t".to_string(),
        column: "name".to_string(),
        definition: "TEXT".to_string(),
    };
    assert_eq!(
        add_column_if_missing(&vec!["id".to_string()], &wanted).as_deref(),
        Some("ALTER TABLE t ADD COLUMN name TEXT")
    );
    assert_eq!(add_column_if_missing(&vec!["NAME".to_string()], &wanted), None);
    assert!(migrate_scan_skips(&vec!["id".to_string()]).is_some());
    assert_eq!(migrate_scan_skips(&vec!["Scan_Id".to_string()]), None);
}

#[test]
fn complete_databases_are_left_alone() {
    let columns = |table: &str| -> Vec<String> {
        required_columns()
            .into_iter()
            .filter(|column| column.table == table)
            .map(|column| column.column)
            .collect()
    };
    let complete = TableColumns {
        media_files: columns("media_files"),
        scan_runs: columns("scan_runs"),
        scan_skips: vec!["scan_id".to_string()],
    };
    let plan = init_schema(&complete, 1);
    assert!(plan.alterations.is_empty());
    assert_eq!(plan.migration, None);
    assert!(!plan.backfill);

    let empty = TableColumns {
        media_files: vec![],
        scan_runs: vec![],
        scan_skips: vec![],
    };
    let plan = init_schema(&empty, 0);
    assert_eq!(plan.alterations.len(), 15);
    assert_eq!(
        plan.alterations[0],
        "ALTER TABLE media_files ADD COLUMN music_artist TEXT"
    );
    assert!(plan.migration.is_some());
    assert!(plan.backfill);
}

#[test]
fn copies_are_checked() {
    assert_eq!(check_integrity("ok"), Ok(()));
    assert_eq!(
        check_integrity("row 3 missing"),
        Err("旧数据库完整性检查失败：row 3 missing".to_string())
    );
}
