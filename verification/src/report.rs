//! What is told of a scan: whether it may start or stop, how it goes on, and
//! how it ended.

use vstd::prelude::*;
use vstd::string::*;

use crate::analysis::SCAN_STOPPED_MESSAGE;
use crate::scan::{
    failed_models, FailedRoot, OutcomeModel, ScanCounters, ScanNotice, ScanOutcome,
};
use crate::text::{begins_with, count_text, decimal, decimal_text, opt_text};

verus! {

// ---------------------------------------------------------------------------
// Starting and stopping
// ---------------------------------------------------------------------------

/// Whether a scan goes on: the message of a stopped scan where a stop was
/// asked for.
pub fn ensure_scan_not_stopped(stop_requested: bool) -> (r: Result<(), String>)
    ensures
        r is Err <==> stop_requested,
        r matches Err(message) ==> message@ == SCAN_STOPPED_MESSAGE@,
{
    if stop_requested {
        Err(SCAN_STOPPED_MESSAGE.to_string())
    } else {
        Ok(())
    }
}

/// Why a scan cannot start, if it cannot.
pub open spec fn start_error(path_count: nat, running: bool) -> Option<Seq<char>> {
    if path_count == 0 {
        Some("至少需要选择一个目录"@)
    } else if running {
        Some("已有扫描任务正在运行"@)
    } else {
        None
    }
}

/// Why a scan cannot be stopped, if it cannot.
pub open spec fn stop_error(running: bool) -> Option<Seq<char>> {
    if running {
        None
    } else {
        Some("当前没有正在运行的扫描任务"@)
    }
}

/// Whether a scan of paths may start.
pub fn may_start_scan(paths: &Vec<String>, running: bool) -> (r: Result<(), String>)
    ensures
        match start_error(paths@.len(), running) {
            Some(error) => r matches Err(message) && message@ == error,
            None => r is Ok,
        },
{
    if paths.len() == 0 {
        return Err("至少需要选择一个目录".to_string());
    }
    if running {
        return Err("已有扫描任务正在运行".to_string());
    }
    Ok(())
}

/// Whether there is a scan to be stopped.
pub fn may_stop_scan(running: bool) -> (r: Result<(), String>)
    ensures
        r is Ok <==> running,
        r matches Err(message) ==> message@ == "当前没有正在运行的扫描任务"@,
        r matches Err(message) ==> stop_error(running) == Some(message@),
        r is Ok ==> stop_error(running) is None,
{
    if running {
        Ok(())
    } else {
        Err("当前没有正在运行的扫描任务".to_string())
    }
}

// ---------------------------------------------------------------------------
// Running a command
// ---------------------------------------------------------------------------

/// How a command that was started stands.
pub enum CommandState {
    Exited,
    Running,
    Lost { error: String },
}

/// What is to be done with a command that was started.
pub enum CommandStep {
    /// Read what it wrote.
    ReadOutput,
    /// Look again in a while.
    Wait,
    /// End it, and report the error.
    Abandon { error: String },
}

/// The error that a command is given up with, if it is given up.
pub open spec fn command_error(stop_requested: bool, state: CommandState) -> Option<Seq<char>> {
    if stop_requested {
        Some(SCAN_STOPPED_MESSAGE@)
    } else {
        match state {
            CommandState::Lost { error } => Some(error@),
            _ => None,
        }
    }
}

/// A command has ended by itself.
pub open spec fn command_ended(stop_requested: bool, state: CommandState) -> bool {
    !stop_requested && state is Exited
}

/// What is to be done with a command: a stop ends it, and so does an error in
/// watching it; what it wrote is read once it has exited.
pub fn command_step(stop_requested: bool, state: CommandState) -> (r: CommandStep)
    ensures
        stop_requested ==> (r matches CommandStep::Abandon { error } && error@
            == SCAN_STOPPED_MESSAGE@),
        !stop_requested ==> match state {
            CommandState::Exited => r matches CommandStep::ReadOutput,
            CommandState::Running => r matches CommandStep::Wait,
            CommandState::Lost { error: lost } => r matches CommandStep::Abandon { error }
                && error@ == lost@,
        },
        (r matches CommandStep::Abandon { error } ==> command_error(stop_requested, state) == Some(
            error@,
        )),
        r is Abandon <==> command_error(stop_requested, state) is Some,
        r is ReadOutput <==> command_ended(stop_requested, state),
{
    if stop_requested {
        return CommandStep::Abandon { error: SCAN_STOPPED_MESSAGE.to_string() };
    }
    match state {
        CommandState::Exited => CommandStep::ReadOutput,
        CommandState::Running => CommandStep::Wait,
        CommandState::Lost { error } => CommandStep::Abandon { error },
    }
}

/// The name of the files that a command writes to: of the process, the time and
/// the number of the command.
pub open spec fn output_base(process_id: i64, time_ms: i64, output_id: nat) -> Seq<char> {
    "media_administrator_command_"@ + decimal(process_id as int) + "_"@ + decimal(time_ms as int)
        + "_"@ + decimal(output_id as int)
}

/// The name of the files that a command writes to, without their extension.
pub fn command_output_base(process_id: i64, time_ms: i64, output_id: usize) -> (r: String)
    ensures
        r@ == "media_administrator_command_"@ + decimal(process_id as int) + "_"@ + decimal(
            time_ms as int,
        ) + "_"@ + decimal(output_id as int),
        r@ == output_base(process_id, time_ms, output_id as nat),
{
    let process = decimal_text(process_id);
    let time = decimal_text(time_ms);
    let output = count_text(output_id);
    "media_administrator_command_".to_string().concat(process.as_str()).concat("_").concat(
        time.as_str(),
    ).concat("_").concat(output.as_str())
}

// ---------------------------------------------------------------------------
// Progress
// ---------------------------------------------------------------------------

/// How a scan goes on, as it is told.
pub struct ScanProgress {
    pub phase: String,
    pub discovered_files: usize,
    pub processed_files: usize,
    pub imported_files: usize,
    pub skipped_files: usize,
    pub skipped_short_files: usize,
    pub total_files: Option<usize>,
    pub current_path: Option<String>,
    pub detail: String,
    pub scan_started_at_ms: i64,
    pub current_file_started_at_ms: Option<i64>,
    pub updated_at_ms: i64,
    pub ffprobe_missing: bool,
}

/// A notice is told as progress.
pub open spec fn progress_tells(
    progress: ScanProgress,
    notice: ScanNotice,
    scan_started_at_ms: i64,
    now_ms: i64,
) -> bool {
    &&& progress.phase == notice.phase
    &&& progress.discovered_files == notice.counters.discovered_files
    &&& progress.processed_files == notice.counters.processed_files
    &&& progress.imported_files == notice.counters.imported_files
    &&& progress.skipped_files == notice.counters.skipped_files
    &&& progress.skipped_short_files == notice.counters.skipped_short_files
    &&& progress.total_files == notice.total_files
    &&& progress.current_path == notice.current_path
    &&& progress.detail == notice.detail
    &&& progress.scan_started_at_ms == scan_started_at_ms
    &&& progress.current_file_started_at_ms == (if notice.starts_file {
        Some(now_ms)
    } else {
        None
    })
    &&& progress.updated_at_ms == now_ms
    &&& !progress.ffprobe_missing
}

/// A notice is told: at once where that is asked for, else in a while.
pub open spec fn is_due(force: bool, since_last_ms: u64) -> bool {
    force || since_last_ms >= 250
}

/// The progress to be told of a notice. A notice that is not urgent is dropped
/// within a quarter of a second of the last one.
pub fn maybe_emit_scan_progress(
    notice: ScanNotice,
    scan_started_at_ms: i64,
    now_ms: i64,
    since_last_ms: u64,
) -> (r: Option<ScanProgress>)
    ensures
        r is None <==> !notice.force && since_last_ms < 250,
        r is Some <==> is_due(notice.force, since_last_ms),
        r matches Some(progress) ==> progress_tells(
            progress,
            notice,
            scan_started_at_ms,
            now_ms,
        ),
{
    if !notice.force && since_last_ms < 250 {
        return None;
    }
    let current_file_started_at_ms = if notice.starts_file {
        Some(now_ms)
    } else {
        None
    };
    Some(
        ScanProgress {
            phase: notice.phase,
            discovered_files: notice.counters.discovered_files,
            processed_files: notice.counters.processed_files,
            imported_files: notice.counters.imported_files,
            skipped_files: notice.counters.skipped_files,
            skipped_short_files: notice.counters.skipped_short_files,
            total_files: notice.total_files,
            current_path: notice.current_path,
            detail: notice.detail,
            scan_started_at_ms,
            current_file_started_at_ms,
            updated_at_ms: now_ms,
            ffprobe_missing: false,
        },
    )
}

// ---------------------------------------------------------------------------
// The end of a scan
// ---------------------------------------------------------------------------

/// What a scan has come to.
pub struct ScanSummary {
    pub scan_id: i64,
    pub started_at_ms: i64,
    pub completed_at_ms: i64,
    pub duration_ms: i64,
    pub scanned_files: usize,
    pub imported_files: usize,
    pub skipped_files: usize,
    pub skipped_short_files: usize,
    pub recorded_directories: usize,
    pub ffprobe_missing: bool,
    pub status: String,
    pub failed_roots: Vec<FailedRoot>,
}

/// Which scan took place when.
#[derive(Clone, Copy)]
pub struct ScanTimes {
    pub scan_id: i64,
    pub started_at_ms: i64,
    pub completed_at_ms: i64,
}

/// A scan that was broken off, as it is told.
pub struct ScanFailureEvent {
    pub scan_id: Option<i64>,
    pub status: String,
    pub message: String,
}

/// The time between two times, never negative; computed with 64-bit integers
/// that wrap around.
pub open spec fn duration_between(started_at_ms: i64, completed_at_ms: i64) -> i64 {
    let duration = completed_at_ms.wrapping_sub(started_at_ms);
    if duration < 0 {
        0
    } else {
        duration
    }
}

/// A summary holds the times and the counts of a scan.
pub open spec fn summary_counts(
    summary: ScanSummary,
    times: ScanTimes,
    counters: ScanCounters,
) -> bool {
    &&& summary.scan_id == times.scan_id
    &&& summary.started_at_ms == times.started_at_ms
    &&& summary.completed_at_ms == times.completed_at_ms
    &&& summary.duration_ms == duration_between(times.started_at_ms, times.completed_at_ms)
    &&& summary.scanned_files == counters.processed_files
    &&& summary.imported_files == counters.imported_files
    &&& summary.skipped_files == counters.skipped_files
    &&& summary.skipped_short_files == counters.skipped_short_files
}

fn summary(
    times: ScanTimes,
    counters: ScanCounters,
    recorded_directories: usize,
    ffprobe_missing: bool,
    status: &str,
    failed_roots: Vec<FailedRoot>,
) -> (r: ScanSummary)
    ensures
        summary_counts(r, times, counters),
        r.recorded_directories == recorded_directories,
        r.ffprobe_missing == ffprobe_missing,
        r.status@ == status@,
        r.failed_roots == failed_roots,
{
    let duration = times.completed_at_ms.wrapping_sub(times.started_at_ms);
    ScanSummary {
        scan_id: times.scan_id,
        started_at_ms: times.started_at_ms,
        completed_at_ms: times.completed_at_ms,
        duration_ms: if duration < 0 {
            0
        } else {
            duration
        },
        scanned_files: counters.processed_files,
        imported_files: counters.imported_files,
        skipped_files: counters.skipped_files,
        skipped_short_files: counters.skipped_short_files,
        recorded_directories,
        ffprobe_missing,
        status: status.to_string(),
        failed_roots,
    }
}

/// The status of a scan that was not broken off: failed if no root was
/// completed, partial if some failed.
pub open spec fn outcome_status(outcome: OutcomeModel) -> Seq<char> {
    if outcome.failed_roots.len() == 0 {
        "completed"@
    } else if outcome.completed_roots == 0 {
        "failed"@
    } else {
        "partial"@
    }
}

/// What is reported of a scan that went through, if anything is.
pub open spec fn outcome_message(outcome: OutcomeModel) -> Option<Seq<char>> {
    if outcome.failed_roots.len() > 0 && outcome.completed_roots == 0 {
        Some("所有扫描根目录均不可用"@)
    } else {
        None
    }
}

/// The summary of a scan that was not broken off, with the error to be stored
/// for it.
pub fn summarize_outcome(times: ScanTimes, counters: ScanCounters, outcome: ScanOutcome) -> (r: (
    ScanSummary,
    Option<String>,
))
    ensures
        summary_counts(r.0, times, counters),
        r.0.recorded_directories == outcome.recorded_directories,
        !r.0.ffprobe_missing,
        r.0.status@ == outcome_status(outcome.model()),
        r.0.failed_roots == outcome.failed_roots,
        opt_text(r.1) == (if outcome.failed_roots@.len() > 0 && outcome.completed_roots == 0 {
            Some("所有扫描根目录均不可用"@)
        } else {
            None
        }),
        opt_text(r.1) == outcome_message(outcome.model()),
{
    let all_failed = outcome.completed_roots == 0 && outcome.failed_roots.len() > 0;
    let status = if all_failed {
        "failed"
    } else if outcome.failed_roots.len() == 0 {
        "completed"
    } else {
        "partial"
    };
    let error_message = if all_failed {
        Some("所有扫描根目录均不可用".to_string())
    } else {
        None
    };
    proof {
        assert(failed_models(outcome.failed_roots@).len() == outcome.failed_roots@.len());
    }
    (
        summary(
            times,
            counters,
            outcome.recorded_directories,
            false,
            status,
            outcome.failed_roots,
        ),
        error_message,
    )
}

/// The status of a scan that was broken off with a message.
pub open spec fn broken_off_status(message: Seq<char>) -> Seq<char> {
    if SCAN_STOPPED_MESSAGE@.is_prefix_of(message) {
        "stopped"@
    } else {
        "failed"@
    }
}

/// A message tells that ffprobe cannot be used.
pub open spec fn tells_of_ffprobe(message: Seq<char>) -> bool {
    "ffprobe 预检失败"@.is_prefix_of(message)
}

/// What is reported of a scan that was broken off, given how many directories
/// are stored.
pub open spec fn failure_message(message: Seq<char>, counted: Result<usize, String>) -> Seq<char> {
    match counted {
        Ok(_) => message,
        Err(error) => message + "；无法统计现有目录："@ + error@,
    }
}

/// What is told of a scan that was broken off, given whether it was stored.
pub open spec fn event_message(message: Seq<char>, stored: Result<(), String>) -> Seq<char> {
    match stored {
        Ok(_) => message,
        Err(error) => message + "；扫描历史写入失败："@ + error@,
    }
}

/// The summary of a scan that was broken off with a message, and the message
/// to be stored for it.
pub fn summarize_failure(
    times: ScanTimes,
    counters: ScanCounters,
    message: String,
    counted: Result<usize, String>,
) -> (r: (ScanSummary, String))
    ensures
        summary_counts(r.0, times, counters),
        r.0.ffprobe_missing == "ffprobe 预检失败"@.is_prefix_of(message@),
        r.0.status@ == broken_off_status(message@),
        r.0.failed_roots@.len() == 0,
        match counted {
            Ok(count) => r.0.recorded_directories == count && r.1@ == message@,
            Err(error) => r.0.recorded_directories == 0 && r.1@ == message@
                + "；无法统计现有目录："@ + error@,
        },
        r.0.ffprobe_missing == tells_of_ffprobe(message@),
        r.1@ == failure_message(message@, counted),
{
    let status = if begins_with(message.as_str(), SCAN_STOPPED_MESSAGE) {
        "stopped"
    } else {
        "failed"
    };
    let ffprobe_missing = begins_with(message.as_str(), "ffprobe 预检失败");
    let (recorded_directories, message) = match counted {
        Ok(count) => (count, message),
        Err(error) => (
            0,
            message.concat("；无法统计现有目录：").concat(error.as_str()),
        ),
    };
    (
        summary(times, counters, recorded_directories, ffprobe_missing, status, Vec::new()),
        message,
    )
}

/// What is told of a scan that was broken off, once it was tried to store its
/// summary.
pub fn failure_event(scan_id: i64, status: String, message: String, stored: Result<(), String>) -> (r:
    ScanFailureEvent)
    ensures
        r.scan_id == Some(scan_id),
        r.status == status,
        match stored {
            Ok(_) => r.message@ == message@,
            Err(error) => r.message@ == message@ + "；扫描历史写入失败："@ + error@,
        },
        r.message@ == event_message(message@, stored),
{
    let message = match stored {
        Ok(_) => message,
        Err(error) => message.concat("；扫描历史写入失败：").concat(error.as_str()),
    };
    ScanFailureEvent { scan_id: Some(scan_id), status, message }
}

/// What is told of a scan that failed before it was run, or whose summary
/// could not be stored.
pub fn failed_event(scan_id: Option<i64>, message: String) -> (r: ScanFailureEvent)
    ensures
        r.scan_id == scan_id,
        r.status@ == "failed"@,
        r.message == message,
{
    ScanFailureEvent { scan_id, status: "failed".to_string(), message }
}

// ---------------------------------------------------------------------------
// Laws
// ---------------------------------------------------------------------------

/// A scan that was not broken off has failed, in part or in full, exactly if a
/// root has failed.
pub proof fn completed_means_no_failed_root(outcome: OutcomeModel)
    ensures
        outcome_status(outcome) == "completed"@ <==> outcome.failed_roots.len() == 0,
        outcome_status(outcome) == "failed"@ <==> outcome.failed_roots.len() > 0
            && outcome.completed_roots == 0,
{
    reveal_strlit("completed");
    reveal_strlit("failed");
    reveal_strlit("partial");
    assert("completed"@.len() == 9 && "failed"@.len() == 6 && "partial"@.len() == 7);
}

} // verus!
