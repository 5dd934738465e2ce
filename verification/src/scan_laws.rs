//! What a scan does and tells: laws on its steps, its notices and its end.

use vstd::prelude::*;
use vstd::string::*;

use crate::analysis::{
    goes_into_the_index, probe_failure, unreadable, AnalyzeSkip, AnalyzedFile, FileMetadata,
};
use crate::config::RootModel;
use crate::paths::{has_extension, media_extensions};
use crate::probe::{
    ffprobe_error, probe_error, short_video, FfprobeOutput, MediaProbe, ProcessOutput,
};
use crate::report::{
    broken_off_status, command_ended, command_error, duration_between, event_message,
    failure_message, is_due, outcome_message, outcome_status, output_base, progress_tells,
    start_error, stop_error, summary_counts, tells_of_ffprobe, CommandState, ScanProgress,
    ScanSummary, ScanTimes,
};
use crate::scan::{
    after_commit, after_count, after_entry, after_ffprobe, after_file, after_persist,
    after_root, after_walk, analyzing, at_discovered, at_file, at_root, begun, failed_models,
    files_of, searching, walked, DiscoveredRoot, FailedRoot, OutcomeModel, PendingSkip,
    ScanAction, ScanCounters, ScanModel, ScanNotice, ScanOutcome, WalkEntry,
};
use crate::statements::ValueModel;
use crate::store::{
    config_read, read_failed, skips_error, skips_read, unfinished_error, SELECT_FAILED_SKIPS,
    SELECT_SKIPS,
};
use crate::text::{decimal, opt_text, texts};

verus! {

// ---------------------------------------------------------------------------
// Steps
// ---------------------------------------------------------------------------

/// A scan begins with ffprobe and has counted nothing, unless it was stopped
/// before.
pub proof fn scans_begin_with_ffprobe(roots: Seq<RootModel>)
    ensures
        ({
            let scan = begun(roots, false);
            &&& scan.roots == roots
            &&& scan.action == ScanAction::VerifyFfprobe
            &&& scan.counters.discovered_files == 0
            &&& scan.counters.processed_files == 0
            &&& scan.counters.imported_files == 0
            &&& scan.counters.skipped_files == 0
            &&& scan.counters.skipped_short_files == 0
            &&& scan.next_root == 0
            &&& scan.failed.len() == 0
            &&& scan.discovered.len() == 0
            &&& scan.media_files.len() == 0
            &&& scan.errors.len() == 0
            &&& scan.current == 0
            &&& scan.next_file == 0
            &&& scan.analyzed.len() == 0
            &&& scan.pending.len() == 0
            &&& scan.result is None
        }),
        begun(roots, true).action == ScanAction::Finish,
        begun(roots, true).result == Some(Err::<(nat, nat), Seq<char>>("扫描已停止"@)),
{
}

/// A scan without ffprobe ends, and says so. With ffprobe it goes on with its
/// first root.
pub proof fn scans_need_ffprobe(scan: ScanModel, error: String)
    ensures
        ({
            let after = after_ffprobe(scan, Err(error), false).0;
            &&& after.action == ScanAction::Finish
            &&& after.result == Some(Err::<(nat, nat), Seq<char>>("ffprobe 预检失败："@ + error@))
            &&& after.counters == scan.counters
        }),
        scan.next_root < scan.roots.len() ==> after_ffprobe(scan, Ok(()), false).0 == (ScanModel {
            action: ScanAction::InspectRoot,
            ..scan
        }),
{
}

/// A root that is a directory is read. One that is not is among the failed
/// roots, under the path that is shown, and the scan goes on with the next.
pub proof fn roots_have_to_be_directories(scan: ScanModel, stop: bool)
    ensures
        after_root(scan, true, stop).0 == (ScanModel { action: ScanAction::ReadEntry, ..scan }),
        ({
            let after = after_root(scan, false, stop).0;
            &&& after.next_root == scan.next_root + 1
            &&& after.failed.len() == scan.failed.len() + 1
            &&& after.failed.drop_last() == scan.failed
            &&& after.failed.last().path == scan.roots[scan.next_root].display_path
            &&& after.failed.last().detail == "目录不存在、不可访问或不是目录，已保留原有索引"@
            &&& after.discovered == scan.discovered
            &&& after.media_files.len() == 0
            &&& after.errors.len() == 0
            &&& after.analyzed == scan.analyzed
            &&& after.pending == scan.pending
        }),
{
    let failed = crate::scan::with_failed_root(
        scan,
        "目录不存在、不可访问或不是目录，已保留原有索引"@,
    );
    lemma_at_root(failed, stop);
    assert(failed.failed.drop_last() =~= scan.failed);
}

proof fn lemma_at_file(scan: ScanModel, stop: bool)
    ensures
        ({
            let after = at_file(scan, stop).0;
            &&& after.roots == scan.roots
            &&& after.next_root == scan.next_root
            &&& after.failed == scan.failed
            &&& after.discovered == scan.discovered
            &&& after.media_files == scan.media_files
            &&& after.errors == scan.errors
            &&& after.current == scan.current
            &&& after.next_file == scan.next_file
            &&& after.analyzed == scan.analyzed
            &&& after.pending == scan.pending
            &&& after.counters.discovered_files == scan.counters.discovered_files
            &&& after.counters.imported_files == scan.counters.imported_files
            &&& after.counters.skipped_files == scan.counters.skipped_files
            &&& after.counters.skipped_short_files == scan.counters.skipped_short_files
        }),
{
}

proof fn lemma_at_root(scan: ScanModel, stop: bool)
    ensures
        ({
            let after = at_root(scan, stop).0;
            &&& after.roots == scan.roots
            &&& after.next_root == scan.next_root
            &&& after.failed == scan.failed
            &&& after.discovered == scan.discovered
            &&& after.media_files == scan.media_files
            &&& after.errors == scan.errors
            &&& after.current == scan.current
            &&& after.next_file == scan.next_file
            &&& after.analyzed == scan.analyzed
            &&& after.pending == scan.pending
            &&& after.counters.discovered_files == scan.counters.discovered_files
            &&& after.counters.imported_files == scan.counters.imported_files
            &&& after.counters.skipped_files == scan.counters.skipped_files
            &&& after.counters.skipped_short_files == scan.counters.skipped_short_files
        }),
{
    lemma_at_file(scan, stop);
}

/// What goes on at a root: the next root is looked at while there is one, then
/// the files of the roots that could be read, root by root and in their order,
/// each root is stored behind its last file, and the directories are counted at
/// the end.
pub proof fn scans_go_on(scan: ScanModel)
    requires
        0 <= scan.current,
        0 <= scan.next_file,
    ensures
        scan.next_root < scan.roots.len() ==> at_root(scan, false).0.action
            == ScanAction::InspectRoot,
        scan.next_root >= scan.roots.len() && scan.current < scan.discovered.len()
            && scan.next_file < scan.discovered[scan.current].files.len() ==> {
            &&& at_root(scan, false).0.action == ScanAction::AnalyzeFile
            &&& at_root(scan, false).0.counters.processed_files == (scan.counters.processed_files
                + 1) as usize
        },
        scan.next_root >= scan.roots.len() && scan.current < scan.discovered.len()
            && scan.next_file >= scan.discovered[scan.current].files.len() ==> {
            &&& at_root(scan, false).0.action == ScanAction::CommitRoot
            &&& at_root(scan, false).0.counters == scan.counters
        },
        scan.next_root >= scan.roots.len() && scan.current >= scan.discovered.len() ==> {
            &&& at_root(scan, false).0.action == ScanAction::CountDirectories
            &&& at_root(scan, false).0.counters == scan.counters
        },
{
}

/// A scan that is asked to stop ends with the message of a stopped scan. Inside
/// a root it first stores which files were left out, if there are any.
pub proof fn scans_stop_when_asked(scan: ScanModel, entry: WalkEntry, windows: bool)
    requires
        scan.current < scan.discovered.len(),
    ensures
        ({
            let message = Some(Err::<(nat, nat), Seq<char>>("扫描已停止"@));
            let reading = after_entry(scan, entry, true, windows).0;
            let inside = at_file(scan, true).0;
            let at_end = at_discovered(ScanModel { current: scan.discovered.len() as int, ..scan }, true).0;
            &&& reading.action == ScanAction::Finish
            &&& reading.result == message
            &&& reading.media_files == scan.media_files
            &&& scan.next_root < scan.roots.len() ==> at_root(scan, true).0.action
                == ScanAction::Finish && at_root(scan, true).0.result == message
            &&& scan.pending.len() == 0 ==> inside.action == ScanAction::Finish && inside.result
                == message
            &&& scan.pending.len() > 0 ==> inside.action == ScanAction::PersistSkips
                && inside.pending == scan.pending && inside.result == scan.result
            &&& at_end.action == ScanAction::Finish
            &&& at_end.result == message
            &&& inside.counters == scan.counters
        }),
{
}

/// An entry that cannot be read is noted. A file whose name has the extension
/// of media is found and counted. Nothing else changes the scan.
pub proof fn media_files_are_found(scan: ScanModel, entry: WalkEntry, windows: bool)
    ensures
        ({
            let after = after_entry(scan, entry, false, windows).0;
            match entry {
                WalkEntry::Unreadable { error } => {
                    &&& after.errors == scan.errors.push(error@)
                    &&& after.media_files == scan.media_files
                    &&& after.counters == scan.counters
                    &&& after.action == scan.action
                },
                WalkEntry::Found { path, is_file } => {
                    &&& is_file && has_extension(path@, media_extensions(), windows) ==> {
                        &&& after.media_files == scan.media_files.push(path@)
                        &&& after.counters.discovered_files == (scan.counters.discovered_files
                            + 1) as usize
                        &&& after.counters.processed_files == scan.counters.processed_files
                        &&& after.counters.imported_files == scan.counters.imported_files
                        &&& after.counters.skipped_files == scan.counters.skipped_files
                        &&& after.errors == scan.errors
                        &&& after.action == scan.action
                    }
                    &&& !is_file || !has_extension(path@, media_extensions(), windows) ==> after
                        == scan
                },
            }
        }),
{
}

/// A root that was read to its end is among the discovered ones with the files
/// that were found in it, in their order.
pub proof fn roots_that_were_read_are_kept(scan: ScanModel, stop: bool)
    requires
        scan.errors.len() == 0,
    ensures
        ({
            let after = after_walk(scan, stop).0;
            &&& after.next_root == scan.next_root + 1
            &&& after.discovered.len() == scan.discovered.len() + 1
            &&& after.discovered.drop_last() == scan.discovered
            &&& after.discovered.last().root == scan.next_root
            &&& after.discovered.last().files == scan.media_files
            &&& after.media_files.len() == 0
            &&& after.failed == scan.failed
            &&& after.counters.discovered_files == scan.counters.discovered_files
        }),
{
    lemma_at_root(walked(scan), stop);
    assert(walked(scan).discovered.drop_last() =~= scan.discovered);
}

/// A root with an entry that could not be read is among the failed ones, under
/// the path that is shown and with the first error and the number of the
/// others; its files are not analysed and no longer counted.
pub proof fn roots_that_were_not_read_fail(scan: ScanModel, stop: bool)
    requires
        scan.errors.len() > 0,
    ensures
        ({
            let after = after_walk(scan, stop).0;
            let first = scan.errors[0];
            let others = scan.errors.len() - 1;
            &&& after.next_root == scan.next_root + 1
            &&& after.discovered == scan.discovered
            &&& after.media_files.len() == 0
            &&& after.errors.len() == 0
            &&& after.failed.len() == scan.failed.len() + 1
            &&& after.failed.drop_last() == scan.failed
            &&& after.failed.last().path == scan.roots[scan.next_root].display_path
            &&& others == 0 ==> after.failed.last().detail == "目录遍历不完整："@ + first
                + "；已保留原有索引"@
            &&& others > 0 ==> after.failed.last().detail == "目录遍历不完整："@ + first + "；另有 "@
                + decimal(others) + " 个错误；已保留原有索引"@
            &&& after.counters.discovered_files == (scan.counters.discovered_files
                - scan.media_files.len()) as usize
        }),
{
    lemma_at_root(walked(scan), stop);
    assert(walked(scan).failed.drop_last() =~= scan.failed);
}

/// An analysed file is kept for its root. A file that failed and a short video
/// are left out, under their path and their root and with the reason, and
/// counted; only the latter counts as a short video.
pub proof fn files_are_kept_or_left_out(
    scan: ScanModel,
    file: AnalyzedFile,
    reason: String,
    detail: String,
    stop: bool,
)
    ensures
        ({
            let path = scan.discovered[scan.current].files[scan.next_file];
            let root = scan.roots[scan.discovered[scan.current].root];
            let kept = after_file(scan, Ok(file), stop).0;
            let failed = after_file(scan, Err(AnalyzeSkip::Failed { reason, detail }), stop).0;
            let short = after_file(scan, Err(AnalyzeSkip::ShortVideo), stop).0;
            &&& kept.next_file == scan.next_file + 1
            &&& kept.analyzed == scan.analyzed.push(file)
            &&& kept.pending == scan.pending
            &&& kept.counters.skipped_files == scan.counters.skipped_files
            &&& kept.counters.skipped_short_files == scan.counters.skipped_short_files
            &&& failed.next_file == scan.next_file + 1
            &&& failed.analyzed == scan.analyzed
            &&& failed.pending.len() == scan.pending.len() + 1
            &&& failed.pending.drop_last() == scan.pending
            &&& failed.pending.last().path == path
            &&& failed.pending.last().root_path == root.path
            &&& failed.pending.last().root_key == root.key
            &&& failed.pending.last().reason == reason@
            &&& failed.pending.last().detail == detail@
            &&& !failed.pending.last().is_short_video
            &&& failed.counters.skipped_files == (scan.counters.skipped_files + 1) as usize
            &&& failed.counters.skipped_short_files == scan.counters.skipped_short_files
            &&& short.next_file == scan.next_file + 1
            &&& short.analyzed == scan.analyzed
            &&& short.pending.len() == scan.pending.len() + 1
            &&& short.pending.drop_last() == scan.pending
            &&& short.pending.last().path == path
            &&& short.pending.last().root_path == root.path
            &&& short.pending.last().root_key == root.key
            &&& short.pending.last().reason == "short_video"@
            &&& short.pending.last().detail == "短视频少于 5 分钟，已从媒体库过滤"@
            &&& short.pending.last().is_short_video
            &&& short.counters.skipped_files == (scan.counters.skipped_files + 1) as usize
            &&& short.counters.skipped_short_files == (scan.counters.skipped_short_files
                + 1) as usize
        }),
{
    let failed = crate::scan::with_skip(scan, reason@, detail@, false);
    let short = crate::scan::with_skip(
        scan,
        "short_video"@,
        "短视频少于 5 分钟，已从媒体库过滤"@,
        true,
    );
    lemma_at_file(crate::scan::with_analyzed(scan, file), stop);
    lemma_at_file(failed, stop);
    lemma_at_file(short, stop);
    assert(failed.pending.drop_last() =~= scan.pending);
    assert(short.pending.drop_last() =~= scan.pending);
}

/// A root that was stored has its files counted as imported, and the scan goes
/// on with the next one; a root that could not be stored ends the scan with the
/// error.
pub proof fn stored_roots_are_counted(scan: ScanModel, error: String, stop: bool)
    ensures
        ({
            let stored = after_commit(scan, Ok(()), stop).0;
            let failed = after_commit(scan, Err(error), stop).0;
            &&& stored.current == scan.current + 1
            &&& stored.next_file == 0
            &&& stored.analyzed.len() == 0
            &&& stored.pending.len() == 0
            &&& stored.discovered == scan.discovered
            &&& stored.failed == scan.failed
            &&& stored.counters.imported_files == (scan.counters.imported_files
                + scan.analyzed.len()) as usize
            &&& stored.counters.skipped_files == scan.counters.skipped_files
            &&& stored.counters.discovered_files == scan.counters.discovered_files
            &&& failed.action == ScanAction::Finish
            &&& failed.result == Some(Err::<(nat, nat), Seq<char>>(error@))
            &&& failed.counters == scan.counters
        }),
{
    lemma_at_file(crate::scan::committed_root(scan), stop);
}

/// A stopped scan whose left-out files were stored ends with the message of a
/// stopped scan, and names the error where they could not be stored.
pub proof fn stopped_scans_say_so(scan: ScanModel, error: String)
    ensures
        after_persist(scan, Ok(())).action == ScanAction::Finish,
        after_persist(scan, Ok(())).result == Some(Err::<(nat, nat), Seq<char>>("扫描已停止"@)),
        after_persist(scan, Err(error)).action == ScanAction::Finish,
        after_persist(scan, Err(error)).result == Some(
            Err::<(nat, nat), Seq<char>>(
                "扫描已停止"@ + "；无法保存已产生的跳过明细："@ + error@,
            ),
        ),
{
}

/// A scan that went through tells how many roots it read and how many
/// directories are stored.
pub proof fn finished_scans_tell_their_counts(scan: ScanModel, count: usize, error: String)
    ensures
        after_count(scan, Ok(count)).action == ScanAction::Finish,
        after_count(scan, Ok(count)).result == Some(
            Ok::<(nat, nat), Seq<char>>((scan.discovered.len(), count as nat)),
        ),
        after_count(scan, Err(error)).action == ScanAction::Finish,
        after_count(scan, Err(error)).result == Some(Err::<(nat, nat), Seq<char>>(error@)),
{
}

// ---------------------------------------------------------------------------
// Notices
// ---------------------------------------------------------------------------

/// While files are searched for, a notice tells what was counted so far and no
/// total; while they are analysed, it tells the total of the roots that were
/// read.
pub proof fn notices_tell_the_phase(
    scan: ScanModel,
    path: Option<Seq<char>>,
    detail: Seq<char>,
    starts_file: bool,
    force: bool,
)
    ensures
        ({
            let early = searching(scan, path, detail, force);
            let late = analyzing(scan, path, detail, starts_file, force);
            &&& early.phase == "discovering"@
            &&& early.counters == scan.counters
            &&& early.total_files is None
            &&& early.current_path == path
            &&& early.detail == detail
            &&& !early.starts_file
            &&& early.force == force
            &&& late.phase == "processing"@
            &&& late.counters == scan.counters
            &&& late.total_files == Some(files_of(scan.discovered))
            &&& late.current_path == path
            &&& late.detail == detail
            &&& late.starts_file == starts_file
            &&& late.force == force
        }),
{
}

/// Each step is told of. What begins or ends a phase, a root or a file is told
/// at once; that a file was found or done is told when it is due.
pub proof fn steps_are_told_of(
    scan: ScanModel,
    path: String,
    file: AnalyzedFile,
    windows: bool,
)
    requires
        0 <= scan.current < scan.discovered.len(),
        0 <= scan.next_file < scan.discovered[scan.current].files.len(),
    ensures
        after_ffprobe(scan, Ok(()), false).1[0] == searching(scan, None, "准备统计目录媒体文件"@, true),
        scan.next_root >= scan.roots.len() ==> at_root(scan, false).1[0] == analyzing(
            scan,
            None,
            "开始分析媒体文件"@,
            false,
            true,
        ),
        after_root(scan, false, false).1[0] == searching(
            scan,
            Some(scan.roots[scan.next_root].display_path),
            "根目录不可用，已保留原有索引"@,
            true,
        ),
        scan.errors.len() > 0 ==> after_walk(scan, false).1[0] == searching(
            walked(scan),
            Some(scan.roots[scan.next_root].display_path),
            "目录遍历不完整，已保留原有索引"@,
            true,
        ),
        has_extension(path@, media_extensions(), windows) ==> ({
            let (after, told) = after_entry(
                scan,
                WalkEntry::Found { path, is_file: true },
                false,
                windows,
            );
            told.len() == 1 && told[0] == searching(after, Some(path@), "发现媒体文件"@, false)
        }),
        ({
            let (after, told) = at_file(scan, false);
            told.len() == 1 && told[0] == analyzing(
                after,
                Some(scan.discovered[scan.current].files[scan.next_file]),
                "正在调用 ffprobe 分析媒体流"@,
                true,
                true,
            )
        }),
        ({
            let told = after_file(scan, Ok(file), false).1[0];
            &&& told.phase == "processing"@
            &&& told.current_path == Some(scan.discovered[scan.current].files[scan.next_file])
            &&& told.detail == "当前文件处理完成"@
            &&& !told.starts_file
            &&& !told.force
        }),
        ({
            let told = after_commit(scan, Ok(()), false).1[0];
            &&& told.phase == "processing"@
            &&& told.current_path == Some(
                scan.roots[scan.discovered[scan.current].root].display_path,
            )
            &&& told.detail == "根目录索引已提交"@
            &&& !told.starts_file
            &&& told.force
            &&& told.counters.imported_files == (scan.counters.imported_files
                + scan.analyzed.len()) as usize
        }),
{
}

/// The total of files is the sum of what was found in the roots.
pub proof fn totals_add_up(roots: Seq<crate::scan::DiscoveredModel>, last: crate::scan::DiscoveredModel)
    ensures
        files_of(Seq::empty()) == 0,
        files_of(roots.push(last)) == files_of(roots) + last.files.len(),
{
    assert(roots.push(last).drop_last() =~= roots);
}

/// What is shown of a scan under way is what its notice tells, with the times.
pub proof fn progress_shows_the_notice(
    progress: ScanProgress,
    notice: ScanNotice,
    started: i64,
    now: i64,
)
    requires
        progress_tells(progress, notice, started, now),
    ensures
        progress.phase@ == notice.phase@,
        progress.discovered_files == notice.counters.discovered_files,
        progress.processed_files == notice.counters.processed_files,
        progress.imported_files == notice.counters.imported_files,
        progress.skipped_files == notice.counters.skipped_files,
        progress.skipped_short_files == notice.counters.skipped_short_files,
        progress.total_files == notice.total_files,
        opt_text(progress.current_path) == opt_text(notice.current_path),
        progress.detail@ == notice.detail@,
        progress.scan_started_at_ms == started,
        progress.updated_at_ms == now,
        notice.starts_file ==> progress.current_file_started_at_ms == Some(now),
        !notice.starts_file ==> progress.current_file_started_at_ms is None,
        !progress.ffprobe_missing,
{
}

// ---------------------------------------------------------------------------
// The end
// ---------------------------------------------------------------------------

/// A scan can start with at least one path while no other runs.
pub proof fn scans_can_start(paths: nat, running: bool)
    ensures
        start_error(paths, running) is None <==> paths > 0 && !running,
        paths == 0 ==> start_error(paths, running) == Some("至少需要选择一个目录"@),
        paths > 0 && running ==> start_error(paths, running) == Some("已有扫描任务正在运行"@),
{
}

/// A scan is complete without failed roots, failed where every root failed, and
/// else partial.
pub proof fn scans_have_their_status(outcome: OutcomeModel)
    ensures
        outcome.failed_roots.len() == 0 ==> outcome_status(outcome) == "completed"@,
        outcome.failed_roots.len() > 0 && outcome.completed_roots == 0 ==> outcome_status(outcome)
            == "failed"@,
        outcome.failed_roots.len() > 0 && outcome.completed_roots > 0 ==> outcome_status(outcome)
            == "partial"@,
{
}

/// A scan that was broken off is stopped if its message begins with that of a
/// stopped scan, and else failed.
pub proof fn broken_off_scans_have_their_status(message: Seq<char>, rest: Seq<char>)
    ensures
        broken_off_status("扫描已停止"@ + rest) == "stopped"@,
        !"扫描已停止"@.is_prefix_of(message) ==> broken_off_status(message) == "failed"@,
{
    assert("扫描已停止"@.is_prefix_of("扫描已停止"@ + rest));
}

/// A scan took the time from its start to its end, and none if its end is
/// before its start.
pub proof fn scans_take_their_time(started: i64, completed: i64)
    ensures
        0 <= started <= completed ==> duration_between(started, completed) == completed - started,
        0 <= completed < started ==> duration_between(started, completed) == 0,
{
}

/// A summary has the number and the times of its scan, and what was counted.
pub proof fn summaries_tell_the_counts(
    summary: ScanSummary,
    times: ScanTimes,
    counters: ScanCounters,
)
    requires
        summary_counts(summary, times, counters),
    ensures
        summary.scan_id == times.scan_id,
        summary.started_at_ms == times.started_at_ms,
        summary.completed_at_ms == times.completed_at_ms,
        0 <= times.started_at_ms <= times.completed_at_ms ==> summary.duration_ms
            == times.completed_at_ms - times.started_at_ms,
        summary.scanned_files == counters.processed_files,
        summary.imported_files == counters.imported_files,
        summary.skipped_files == counters.skipped_files,
        summary.skipped_short_files == counters.skipped_short_files,
{
}

/// What can be read of what a scan keeps is what it holds, field by field.
pub proof fn kept_values_are_what_they_hold(
    root: FailedRoot,
    skip: PendingSkip,
    found: DiscoveredRoot,
    notice: ScanNotice,
    outcome: ScanOutcome,
)
    ensures
        root.model().path == root.path@,
        root.model().detail == root.detail@,
        skip.model().path == skip.path@,
        skip.model().root_path == skip.root_path@,
        skip.model().root_key == skip.root_key@,
        skip.model().reason == skip.reason@,
        skip.model().detail == skip.detail@,
        skip.model().is_short_video == skip.is_short_video,
        found.model().root == found.root,
        found.model().files == texts(found.media_files@),
        notice.model().phase == notice.phase@,
        notice.model().counters == notice.counters,
        notice.total_files is None <==> notice.model().total_files is None,
        notice.total_files is Some ==> notice.model().total_files->0 == notice.total_files->0,
        notice.model().current_path == opt_text(notice.current_path),
        notice.model().detail == notice.detail@,
        notice.model().starts_file == notice.starts_file,
        notice.model().force == notice.force,
        outcome.model().failed_roots == failed_models(outcome.failed_roots@),
        outcome.model().completed_roots == outcome.completed_roots,
        outcome.model().recorded_directories == outcome.recorded_directories,
{
}

// ---------------------------------------------------------------------------
// The history
// ---------------------------------------------------------------------------

/// The directories of a stored scan are read if both lists can be read; else
/// the first that cannot be read is reported, with the scan and the list.
pub proof fn histories_report_what_is_corrupt(
    id: i64,
    paths: Result<Seq<Seq<char>>, Seq<char>>,
    excluded: Result<Seq<Seq<char>>, Seq<char>>,
    error: Seq<char>,
)
    ensures
        paths is Ok && excluded is Ok ==> config_read(id, paths, excluded) == Ok::<
            (Seq<Seq<char>>, Seq<Seq<char>>),
            Seq<char>,
        >((paths->Ok_0, excluded->Ok_0)),
        paths is Err ==> config_read(id, paths, excluded) == Err::<
            (Seq<Seq<char>>, Seq<Seq<char>>),
            Seq<char>,
        >("扫描历史 "@ + decimal(id as int) + " 的扫描目录"@ + "格式损坏："@ + paths->Err_0),
        paths is Ok && excluded is Err ==> config_read(id, paths, excluded) == Err::<
            (Seq<Seq<char>>, Seq<Seq<char>>),
            Seq<char>,
        >("扫描历史 "@ + decimal(id as int) + " 的排除目录"@ + "格式损坏："@ + excluded->Err_0),
        read_failed(id, error) == "扫描历史 "@ + decimal(id as int) + " 的失败目录"@ + "格式损坏："@
            + error,
{
}

/// A run of ffprobe shows that it can be used if it could be started and
/// succeeded.
pub proof fn ffprobe_can_be_used(run: Result<ProcessOutput, String>)
    ensures
        ffprobe_error(run) is None <==> run is Ok && run->Ok_0.success,
        run matches Err(error) ==> ffprobe_error(run) == Some("未能从 PATH 调用 ffprobe："@ + error@),
        run matches Ok(output) ==> !output.success ==> ffprobe_error(run) == Some(
            "ffprobe 版本检查返回非零状态："@ + crate::probe::compact(
                crate::unicode::lossy_text(output.stderr@),
            ),
        ),
{
}

/// A probe is of use if ffprobe could be run, succeeded and reported what can be
/// read; else the first of these that is not so is told.
pub proof fn failed_probes_are_told(
    run: Result<ProcessOutput, String>,
    report: Result<FfprobeOutput, String>,
)
    ensures
        probe_error(run, report) is None <==> run is Ok && run->Ok_0.success && report is Ok,
        run matches Err(error) ==> probe_error(run, report) == Some(error@),
        run matches Ok(output) ==> !output.success ==> probe_error(run, report) == Some(
            "ffprobe 返回非零状态："@ + crate::probe::compact(
                crate::unicode::lossy_text(output.stderr@),
            ),
        ),
        run is Ok && run->Ok_0.success ==> (report matches Err(error) ==> probe_error(run, report)
            == Some("ffprobe JSON 解析失败："@ + error@)),
{
}

// ---------------------------------------------------------------------------
// Files that are left out
// ---------------------------------------------------------------------------

/// A file without metadata is left out with the error, and one whose path has
/// no name without.
pub proof fn unreadable_files_are_told(metadata: FileMetadata, error: String, name: Seq<char>)
    ensures
        unreadable(Ok(metadata), Some(name)) is None,
        unreadable(Ok(metadata), None) == Some(("invalid_path"@, "文件路径中缺少文件名"@)),
        unreadable(Err(error), Some(name)) == Some(
            ("metadata_error"@, "无法读取文件元数据："@ + error@),
        ),
        unreadable(Err(error), None) == Some(
            ("metadata_error"@, "无法读取文件元数据："@ + error@),
        ),
{
}

/// A file that could not be probed is left out with the error, unless the scan
/// was stopped, and one without streams with the message of that. Every other
/// one goes into the index, unless it is a short video.
pub proof fn probed_files_go_into_the_index(probe: MediaProbe, error: String)
    ensures
        error@ == "扫描已停止"@ ==> probe_failure(Err(error)) is None,
        error@ != "扫描已停止"@ ==> probe_failure(Err(error)) == Some(("ffprobe_error"@, error@)),
        !goes_into_the_index(Err(error)),
        !probe.has_video && !probe.has_audio ==> {
            &&& probe_failure(Ok(probe)) == Some(
                ("no_media_stream"@, "ffprobe 未检测到有效的视频流或音频流"@),
            )
            &&& !goes_into_the_index(Ok(probe))
        },
        probe.has_video || probe.has_audio ==> {
            &&& probe_failure(Ok(probe)) is None
            &&& goes_into_the_index(Ok(probe)) <==> !short_video(probe)
        },
{
}

/// The files that were left out are read by the number of the scan, those that
/// failed alone or all of them. Only scans with a positive number can be
/// listed.
pub proof fn left_out_files_are_listed(scan_id: i64)
    ensures
        skips_read(scan_id, true).sql == SELECT_SKIPS@,
        skips_read(scan_id, false).sql == SELECT_FAILED_SKIPS@,
        skips_read(scan_id, true).values.len() == 1,
        skips_read(scan_id, true).values[0] == ValueModel::Integer(scan_id),
        skips_read(scan_id, false).values.len() == 1,
        skips_read(scan_id, false).values[0] == ValueModel::Integer(scan_id),
        scan_id > 0 ==> skips_error(scan_id) is None,
        scan_id <= 0 ==> skips_error(scan_id) == Some("扫描记录编号无效"@),
{
}

/// The end of a scan is stored if exactly one row changed.
pub proof fn one_row_is_finished(changed: nat, scan_id: i64)
    ensures
        changed == 1 ==> unfinished_error(changed, scan_id) is None,
        changed != 1 ==> unfinished_error(changed, scan_id) == Some(
            "扫描历史 "@ + decimal(scan_id as int) + " 不存在"@,
        ),
{
}

// ---------------------------------------------------------------------------
// Commands and messages
// ---------------------------------------------------------------------------

/// A command is given up when the scan is to stop or when it is lost; else it
/// is read when it has ended, and waited for while it runs.
pub proof fn commands_are_given_up_when_asked(stop: bool, error: String)
    ensures
        command_error(true, CommandState::Exited) == Some("扫描已停止"@),
        command_error(true, CommandState::Running) == Some("扫描已停止"@),
        command_error(true, CommandState::Lost { error }) == Some("扫描已停止"@),
        command_error(false, CommandState::Lost { error }) == Some(error@),
        command_error(false, CommandState::Exited) is None,
        command_error(false, CommandState::Running) is None,
        command_ended(stop, CommandState::Exited) <==> !stop,
        !command_ended(stop, CommandState::Running),
        !command_ended(stop, CommandState::Lost { error }),
        stop_error(false) == Some("当前没有正在运行的扫描任务"@),
        stop_error(true) is None,
{
}

/// The files of a command are named by the process, the time and its number, in
/// this order.
pub proof fn outputs_have_their_names(process_id: i64, time_ms: i64, output_id: nat)
    ensures
        output_base(process_id, time_ms, output_id) == "media_administrator_command_"@ + decimal(
            process_id as int,
        ) + "_"@ + decimal(time_ms as int) + "_"@ + decimal(output_id as int),
{
}

/// A notice that is not asked for at once is told a quarter of a second behind
/// the last one.
pub proof fn notices_are_a_quarter_second_apart(since: u64)
    ensures
        is_due(true, since),
        is_due(false, since) <==> since >= 250,
{
}

/// It is reported where every root failed, that ffprobe cannot be used, and
/// which further errors came.
pub proof fn failures_are_reported(
    outcome: OutcomeModel,
    message: Seq<char>,
    count: usize,
    error: String,
)
    ensures
        outcome.failed_roots.len() > 0 && outcome.completed_roots == 0 ==> outcome_message(outcome)
            == Some("所有扫描根目录均不可用"@),
        outcome.failed_roots.len() == 0 || outcome.completed_roots > 0 ==> outcome_message(outcome)
            is None,
        tells_of_ffprobe(message) <==> "ffprobe 预检失败"@.is_prefix_of(message),
        failure_message(message, Ok(count)) == message,
        failure_message(message, Err(error)) == message + "；无法统计现有目录："@ + error@,
        event_message(message, Ok(())) == message,
        event_message(message, Err(error)) == message + "；扫描历史写入失败："@ + error@,
{
}

} // verus!
