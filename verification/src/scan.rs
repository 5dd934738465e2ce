//! A scan, step by step. [`Scan`] says what is to be done next; the answer is
//! handed back to it, with whether a stop was asked for meanwhile, and it says
//! what to tell of the progress and what is to be done then.

use vstd::prelude::*;
use vstd::string::*;

use crate::analysis::{AnalyzeSkip, AnalyzedFile, SCAN_STOPPED_MESSAGE};
use crate::config::{root_models, RootModel, RootSpec};
use crate::paths::{has_extension, is_media_file, media_extensions, PathRules};
use crate::text::{count_text, decimal, opt_text, texts};

verus! {

// ---------------------------------------------------------------------------
// What a scan holds
// ---------------------------------------------------------------------------

/// The files that a scan has counted.
#[derive(Clone, Copy)]
pub struct ScanCounters {
    pub discovered_files: usize,
    pub processed_files: usize,
    pub imported_files: usize,
    pub skipped_files: usize,
    pub skipped_short_files: usize,
}

impl Default for ScanCounters {
    /// Nothing counted.
    fn default() -> (r: Self)
        ensures
            r == no_files(),
    {
        ScanCounters {
            discovered_files: 0,
            processed_files: 0,
            imported_files: 0,
            skipped_files: 0,
            skipped_short_files: 0,
        }
    }
}

/// Nothing counted.
pub open spec fn no_files() -> ScanCounters {
    ScanCounters {
        discovered_files: 0,
        processed_files: 0,
        imported_files: 0,
        skipped_files: 0,
        skipped_short_files: 0,
    }
}

/// A root that could not be scanned.
pub struct FailedRoot {
    pub path: String,
    pub detail: String,
}

/// A root that could not be scanned, as a value.
pub struct FailedModel {
    pub path: Seq<char>,
    pub detail: Seq<char>,
}

impl FailedRoot {
    pub open spec fn model(self) -> FailedModel {
        FailedModel { path: self.path@, detail: self.detail@ }
    }
}

/// Roots that could not be scanned, as values.
pub open spec fn failed_models(roots: Seq<FailedRoot>) -> Seq<FailedModel> {
    roots.map_values(|r: FailedRoot| r.model())
}

/// A file that was left out, before this is stored.
pub struct PendingSkip {
    pub path: String,
    pub root_path: String,
    pub root_key: String,
    pub reason: String,
    pub detail: String,
    pub is_short_video: bool,
}

/// A file that was left out, as a value.
pub struct SkipModel {
    pub path: Seq<char>,
    pub root_path: Seq<char>,
    pub root_key: Seq<char>,
    pub reason: Seq<char>,
    pub detail: Seq<char>,
    pub is_short_video: bool,
}

impl PendingSkip {
    pub open spec fn model(self) -> SkipModel {
        SkipModel {
            path: self.path@,
            root_path: self.root_path@,
            root_key: self.root_key@,
            reason: self.reason@,
            detail: self.detail@,
            is_short_video: self.is_short_video,
        }
    }
}

/// Files that were left out, as values.
pub open spec fn skip_models(skips: Seq<PendingSkip>) -> Seq<SkipModel> {
    skips.map_values(|s: PendingSkip| s.model())
}

/// A root whose files were all found: its number among the roots of the scan,
/// and the paths of its media files.
pub struct DiscoveredRoot {
    pub root: usize,
    pub media_files: Vec<String>,
}

/// A root whose files were all found, as a value.
pub struct DiscoveredModel {
    pub root: int,
    pub files: Seq<Seq<char>>,
}

impl DiscoveredRoot {
    pub open spec fn model(self) -> DiscoveredModel {
        DiscoveredModel { root: self.root as int, files: texts(self.media_files@) }
    }
}

/// Roots whose files were all found, as values.
pub open spec fn discovered_models(roots: Seq<DiscoveredRoot>) -> Seq<DiscoveredModel> {
    roots.map_values(|r: DiscoveredRoot| r.model())
}

/// The number of files of roots.
pub open spec fn files_of(roots: Seq<DiscoveredModel>) -> nat
    decreases roots.len(),
{
    if roots.len() == 0 {
        0
    } else {
        files_of(roots.drop_last()) + roots.last().files.len()
    }
}

/// What is to be done next in a scan.
#[derive(Clone, Copy, PartialEq, Eq, Structural)]
pub enum ScanAction {
    /// See whether ffprobe runs.
    VerifyFfprobe,
    /// See whether the current root is a directory.
    InspectRoot,
    /// Read the next entry of the current root.
    ReadEntry,
    /// Analyse the current file.
    AnalyzeFile,
    /// Store what was found in the current root.
    CommitRoot,
    /// Store which files were left out in the current root.
    PersistSkips,
    /// Count the directories that are stored.
    CountDirectories,
    /// Nothing: the scan is over.
    Finish,
}

/// An entry that was read from a directory.
pub enum WalkEntry {
    /// An entry with its path.
    Found { path: String, is_file: bool },
    /// An entry that could not be read, with the reason.
    Unreadable { error: String },
}

/// What a scan tells of its progress.
pub struct ScanNotice {
    pub phase: String,
    pub counters: ScanCounters,
    pub total_files: Option<usize>,
    pub current_path: Option<String>,
    pub detail: String,
    /// The analysis of the current file starts now.
    pub starts_file: bool,
    /// To be told at once, however short ago the last notice was.
    pub force: bool,
}

/// What a scan tells of its progress, as a value.
pub struct NoticeModel {
    pub phase: Seq<char>,
    pub counters: ScanCounters,
    pub total_files: Option<nat>,
    pub current_path: Option<Seq<char>>,
    pub detail: Seq<char>,
    pub starts_file: bool,
    pub force: bool,
}

impl ScanNotice {
    pub open spec fn model(self) -> NoticeModel {
        NoticeModel {
            phase: self.phase@,
            counters: self.counters,
            total_files: match self.total_files {
                Some(total) => Some(total as nat),
                None => None,
            },
            current_path: opt_text(self.current_path),
            detail: self.detail@,
            starts_file: self.starts_file,
            force: self.force,
        }
    }
}

/// Notices as values.
pub open spec fn notice_models(notices: Seq<ScanNotice>) -> Seq<NoticeModel> {
    notices.map_values(|n: ScanNotice| n.model())
}

/// What came of a scan that was not broken off.
pub struct ScanOutcome {
    pub failed_roots: Vec<FailedRoot>,
    pub completed_roots: usize,
    pub recorded_directories: usize,
}

/// What came of a scan, as a value.
pub struct OutcomeModel {
    pub failed_roots: Seq<FailedModel>,
    pub completed_roots: nat,
    pub recorded_directories: nat,
}

impl ScanOutcome {
    pub open spec fn model(self) -> OutcomeModel {
        OutcomeModel {
            failed_roots: failed_models(self.failed_roots@),
            completed_roots: self.completed_roots as nat,
            recorded_directories: self.recorded_directories as nat,
        }
    }
}

/// A scan as a value.
pub struct ScanModel {
    pub roots: Seq<RootModel>,
    pub action: ScanAction,
    pub counters: ScanCounters,
    /// How many roots have been searched for files.
    pub next_root: int,
    pub failed: Seq<FailedModel>,
    pub discovered: Seq<DiscoveredModel>,
    /// The media files found so far in the root that is searched.
    pub media_files: Seq<Seq<char>>,
    /// What could not be read in the root that is searched.
    pub errors: Seq<Seq<char>>,
    /// How many of the discovered roots have been stored.
    pub current: int,
    /// How many files of the current root have been analysed.
    pub next_file: int,
    pub analyzed: Seq<AnalyzedFile>,
    pub pending: Seq<SkipModel>,
    pub result: Option<Result<(nat, nat), Seq<char>>>,
}

// ---------------------------------------------------------------------------
// How a scan goes on
// ---------------------------------------------------------------------------

/// A notice while files are searched.
pub open spec fn searching(
    scan: ScanModel,
    current_path: Option<Seq<char>>,
    detail: Seq<char>,
    force: bool,
) -> NoticeModel {
    NoticeModel {
        phase: "discovering"@,
        counters: scan.counters,
        total_files: None,
        current_path,
        detail,
        starts_file: false,
        force,
    }
}

/// A notice while files are analysed.
pub open spec fn analyzing(
    scan: ScanModel,
    current_path: Option<Seq<char>>,
    detail: Seq<char>,
    starts_file: bool,
    force: bool,
) -> NoticeModel {
    NoticeModel {
        phase: "processing"@,
        counters: scan.counters,
        total_files: Some(files_of(scan.discovered)),
        current_path,
        detail,
        starts_file,
        force,
    }
}

/// A scan that ended with an error.
pub open spec fn broken_off(scan: ScanModel, error: Seq<char>) -> ScanModel {
    ScanModel { action: ScanAction::Finish, result: Some(Err(error)), ..scan }
}

/// A scan that was stopped.
pub open spec fn stopped(scan: ScanModel) -> ScanModel {
    broken_off(scan, SCAN_STOPPED_MESSAGE@)
}

/// A scan that was stopped while the files of a root were analysed: which of
/// them were left out is stored first.
pub open spec fn stopped_in_root(scan: ScanModel) -> ScanModel {
    if scan.pending.len() == 0 {
        stopped(scan)
    } else {
        ScanModel { action: ScanAction::PersistSkips, ..scan }
    }
}

/// On to the next file of the current root; behind the last, the root is
/// stored.
pub open spec fn at_file(scan: ScanModel, stop: bool) -> (ScanModel, Seq<NoticeModel>) {
    let files = scan.discovered[scan.current].files;
    if stop {
        (stopped_in_root(scan), Seq::empty())
    } else if scan.next_file < files.len() {
        let started = ScanModel {
            action: ScanAction::AnalyzeFile,
            counters: ScanCounters {
                processed_files: (scan.counters.processed_files + 1) as usize,
                ..scan.counters
            },
            ..scan
        };
        (
            started,
            seq![
                analyzing(
                    started,
                    Some(files[scan.next_file]),
                    "正在调用 ffprobe 分析媒体流"@,
                    true,
                    true,
                ),
            ],
        )
    } else {
        (ScanModel { action: ScanAction::CommitRoot, ..scan }, Seq::empty())
    }
}

/// On to the next root with files to analyse; behind the last, the stored
/// directories are counted.
pub open spec fn at_discovered(scan: ScanModel, stop: bool) -> (ScanModel, Seq<NoticeModel>) {
    if scan.current < scan.discovered.len() {
        at_file(scan, stop)
    } else if stop {
        (stopped(scan), Seq::empty())
    } else {
        (ScanModel { action: ScanAction::CountDirectories, ..scan }, Seq::empty())
    }
}

/// On to the next root to be searched; behind the last, the files are
/// analysed.
pub open spec fn at_root(scan: ScanModel, stop: bool) -> (ScanModel, Seq<NoticeModel>) {
    if scan.next_root < scan.roots.len() {
        if stop {
            (stopped(scan), Seq::empty())
        } else {
            (ScanModel { action: ScanAction::InspectRoot, ..scan }, Seq::empty())
        }
    } else {
        let (next, notices) = at_discovered(scan, stop);
        (next, seq![analyzing(scan, None, "开始分析媒体文件"@, false, true)] + notices)
    }
}

/// A scan of roots before anything is done.
pub open spec fn fresh_scan(roots: Seq<RootModel>) -> ScanModel {
    ScanModel {
        roots,
        action: ScanAction::VerifyFfprobe,
        counters: no_files(),
        next_root: 0,
        failed: Seq::empty(),
        discovered: Seq::empty(),
        media_files: Seq::empty(),
        errors: Seq::empty(),
        current: 0,
        next_file: 0,
        analyzed: Seq::empty(),
        pending: Seq::empty(),
        result: None,
    }
}

/// A scan begins.
pub open spec fn begun(roots: Seq<RootModel>, stop: bool) -> ScanModel {
    if stop {
        stopped(fresh_scan(roots))
    } else {
        fresh_scan(roots)
    }
}

/// ffprobe was tried.
pub open spec fn after_ffprobe(scan: ScanModel, tried: Result<(), String>, stop: bool) -> (
    ScanModel,
    Seq<NoticeModel>,
) {
    match tried {
        Err(error) => (broken_off(scan, "ffprobe 预检失败："@ + error@), Seq::empty()),
        Ok(_) => {
            let (next, notices) = at_root(scan, stop);
            (next, seq![searching(scan, None, "准备统计目录媒体文件"@, true)] + notices)
        },
    }
}

/// The current root cannot be scanned.
pub open spec fn with_failed_root(scan: ScanModel, detail: Seq<char>) -> ScanModel {
    ScanModel {
        next_root: scan.next_root + 1,
        failed: scan.failed.push(
            FailedModel { path: scan.roots[scan.next_root].display_path, detail },
        ),
        media_files: Seq::empty(),
        errors: Seq::empty(),
        ..scan
    }
}

/// The current root was looked at.
pub open spec fn after_root(scan: ScanModel, is_directory: bool, stop: bool) -> (
    ScanModel,
    Seq<NoticeModel>,
) {
    if is_directory {
        (ScanModel { action: ScanAction::ReadEntry, ..scan }, Seq::empty())
    } else {
        let failed = with_failed_root(scan, "目录不存在、不可访问或不是目录，已保留原有索引"@);
        let (next, notices) = at_root(failed, stop);
        (
            next,
            seq![
                searching(
                    scan,
                    Some(scan.roots[scan.next_root].display_path),
                    "根目录不可用，已保留原有索引"@,
                    true,
                ),
            ] + notices,
        )
    }
}

/// An entry of the current root was read.
pub open spec fn after_entry(scan: ScanModel, entry: WalkEntry, stop: bool, windows: bool) -> (
    ScanModel,
    Seq<NoticeModel>,
) {
    if stop {
        (stopped(scan), Seq::empty())
    } else {
        match entry {
            WalkEntry::Unreadable { error } => (
                ScanModel { errors: scan.errors.push(error@), ..scan },
                Seq::empty(),
            ),
            WalkEntry::Found { path, is_file } => if is_file && has_extension(
                path@,
                media_extensions(),
                windows,
            ) {
                let found = ScanModel {
                    counters: ScanCounters {
                        discovered_files: (scan.counters.discovered_files + 1) as usize,
                        ..scan.counters
                    },
                    media_files: scan.media_files.push(path@),
                    ..scan
                };
                (found, seq![searching(found, Some(path@), "发现媒体文件"@, false)])
            } else {
                (scan, Seq::empty())
            },
        }
    }
}

/// Why a root that could not be read in full is not scanned.
pub open spec fn unread_detail(errors: Seq<Seq<char>>) -> Seq<char> {
    if errors.len() <= 1 {
        "目录遍历不完整："@ + errors[0] + "；已保留原有索引"@
    } else {
        "目录遍历不完整："@ + errors[0] + "；另有 "@ + decimal(errors.len() - 1)
            + " 个错误；已保留原有索引"@
    }
}

/// A scan whose current root was read to the end, before it goes on.
pub open spec fn walked(scan: ScanModel) -> ScanModel {
    if scan.errors.len() == 0 {
        ScanModel {
            next_root: scan.next_root + 1,
            discovered: scan.discovered.push(
                DiscoveredModel { root: scan.next_root, files: scan.media_files },
            ),
            media_files: Seq::empty(),
            ..scan
        }
    } else {
        ScanModel {
            counters: ScanCounters {
                discovered_files: (scan.counters.discovered_files
                    - scan.media_files.len()) as usize,
                ..scan.counters
            },
            ..with_failed_root(scan, unread_detail(scan.errors))
        }
    }
}

/// The current root was read to the end.
pub open spec fn after_walk(scan: ScanModel, stop: bool) -> (ScanModel, Seq<NoticeModel>) {
    let (next, notices) = at_root(walked(scan), stop);
    (
        next,
        (if scan.errors.len() == 0 {
            Seq::empty()
        } else {
            seq![
                searching(
                    walked(scan),
                    Some(scan.roots[scan.next_root].display_path),
                    "目录遍历不完整，已保留原有索引"@,
                    true,
                ),
            ]
        }) + notices,
    )
}

/// The root whose files are analysed.
pub open spec fn current_root(scan: ScanModel) -> RootModel {
    scan.roots[scan.discovered[scan.current].root]
}

/// The file that is analysed.
pub open spec fn current_file(scan: ScanModel) -> Seq<char> {
    scan.discovered[scan.current].files[scan.next_file]
}

/// The current file is left out.
pub open spec fn with_skip(
    scan: ScanModel,
    reason: Seq<char>,
    detail: Seq<char>,
    is_short_video: bool,
) -> ScanModel {
    ScanModel {
        counters: ScanCounters {
            skipped_files: (scan.counters.skipped_files + 1) as usize,
            skipped_short_files: (scan.counters.skipped_short_files + (if is_short_video {
                1int
            } else {
                0int
            })) as usize,
            ..scan.counters
        },
        pending: scan.pending.push(
            SkipModel {
                path: current_file(scan),
                root_path: current_root(scan).path,
                root_key: current_root(scan).key,
                reason,
                detail,
                is_short_video,
            },
        ),
        next_file: scan.next_file + 1,
        ..scan
    }
}

/// The current file is to be stored.
pub open spec fn with_analyzed(scan: ScanModel, file: AnalyzedFile) -> ScanModel {
    ScanModel { analyzed: scan.analyzed.push(file), next_file: scan.next_file + 1, ..scan }
}

/// The current file was analysed.
pub open spec fn after_file(
    scan: ScanModel,
    analysis: Result<AnalyzedFile, AnalyzeSkip>,
    stop: bool,
) -> (ScanModel, Seq<NoticeModel>) {
    match analysis {
        Err(AnalyzeSkip::Stopped) => (stopped_in_root(scan), Seq::empty()),
        _ => {
            let done = match analysis {
                Ok(file) => with_analyzed(scan, file),
                Err(AnalyzeSkip::Failed { reason, detail }) => with_skip(
                    scan,
                    reason@,
                    detail@,
                    false,
                ),
                Err(_) => with_skip(
                    scan,
                    "short_video"@,
                    "短视频少于 5 分钟，已从媒体库过滤"@,
                    true,
                ),
            };
            let (next, notices) = at_file(done, stop);
            (
                next,
                seq![
                    analyzing(
                        done,
                        Some(current_file(scan)),
                        "当前文件处理完成"@,
                        false,
                        false,
                    ),
                ] + notices,
            )
        },
    }
}

/// A scan whose current root was stored, before it goes on.
pub open spec fn committed_root(scan: ScanModel) -> ScanModel {
    ScanModel {
        counters: ScanCounters {
            imported_files: (scan.counters.imported_files + scan.analyzed.len()) as usize,
            ..scan.counters
        },
        current: scan.current + 1,
        next_file: 0,
        analyzed: Seq::empty(),
        pending: Seq::empty(),
        ..scan
    }
}

/// The current root was stored.
pub open spec fn after_commit(scan: ScanModel, committed: Result<(), String>, stop: bool) -> (
    ScanModel,
    Seq<NoticeModel>,
) {
    match committed {
        Err(error) => (broken_off(scan, error@), Seq::empty()),
        Ok(_) => {
            let (next, notices) = at_discovered(committed_root(scan), stop);
            (
                next,
                seq![
                    analyzing(
                        committed_root(scan),
                        Some(current_root(scan).display_path),
                        "根目录索引已提交"@,
                        false,
                        true,
                    ),
                ] + notices,
            )
        },
    }
}

/// The files that were left out were stored, and the scan ends.
pub open spec fn after_persist(scan: ScanModel, persisted: Result<(), String>) -> ScanModel {
    match persisted {
        Err(error) => broken_off(
            scan,
            SCAN_STOPPED_MESSAGE@ + "；无法保存已产生的跳过明细："@ + error@,
        ),
        Ok(_) => stopped(scan),
    }
}

/// The stored directories were counted, and the scan ends.
pub open spec fn after_count(scan: ScanModel, counted: Result<usize, String>) -> ScanModel {
    match counted {
        Err(error) => broken_off(scan, error@),
        Ok(count) => ScanModel {
            action: ScanAction::Finish,
            result: Some(Ok((scan.discovered.len(), count as nat))),
            ..scan
        },
    }
}

// ---------------------------------------------------------------------------
// What holds at every step
// ---------------------------------------------------------------------------

/// The roots that have been searched are the failed and the discovered ones.
pub open spec fn roots_are_settled(scan: ScanModel) -> bool {
    &&& 0 <= scan.next_root <= scan.roots.len()
    &&& scan.failed.len() + scan.discovered.len() == scan.next_root
    &&& forall|i: int|
        0 <= i < scan.discovered.len() ==> 0 <= (#[trigger] scan.discovered[i]).root < scan.next_root
}

/// Every file that was found is counted, and no other.
pub open spec fn files_are_counted(scan: ScanModel) -> bool {
    &&& scan.counters.discovered_files == files_of(scan.discovered) + scan.media_files.len()
    &&& scan.counters.skipped_short_files <= scan.counters.skipped_files
    &&& 0 <= scan.current <= scan.discovered.len()
    &&& 0 <= scan.next_file
    &&& scan.analyzed.len() + scan.pending.len() == scan.next_file
}

/// How many files have been taken up to be analysed.
pub open spec fn files_taken(scan: ScanModel) -> nat {
    (files_of(scan.discovered.take(scan.current)) + scan.next_file) as nat
}

/// While roots are searched, nothing has been analysed.
pub open spec fn nothing_taken(scan: ScanModel) -> bool {
    scan.counters.processed_files == 0 && scan.counters.imported_files == 0
        && scan.counters.skipped_files == 0 && scan.current == 0 && scan.next_file == 0
}

/// Every file that was analysed is imported, about to be imported, or left
/// out.
pub open spec fn files_are_settled(scan: ScanModel) -> bool {
    &&& scan.counters.imported_files + scan.counters.skipped_files + scan.analyzed.len()
        == files_taken(scan)
    &&& scan.current < scan.discovered.len() ==> scan.next_file
        <= scan.discovered[scan.current].files.len()
    &&& scan.current == scan.discovered.len() ==> scan.next_file == 0
}

/// What holds of a scan at every step.
pub open spec fn is_sound(scan: ScanModel) -> bool {
    &&& roots_are_settled(scan)
    &&& files_are_counted(scan)
    &&& files_are_settled(scan)
    &&& match scan.action {
        ScanAction::VerifyFfprobe => nothing_taken(scan) && scan.media_files.len() == 0
            && scan.errors.len() == 0,
        ScanAction::InspectRoot => nothing_taken(scan) && scan.media_files.len() == 0
            && scan.errors.len() == 0 && scan.next_root < scan.roots.len(),
        ScanAction::ReadEntry => nothing_taken(scan) && scan.next_root < scan.roots.len(),
        ScanAction::AnalyzeFile => {
            &&& scan.next_root == scan.roots.len()
            &&& scan.media_files.len() == 0
            &&& scan.current < scan.discovered.len()
            &&& scan.next_file < scan.discovered[scan.current].files.len()
            &&& scan.counters.processed_files == files_taken(scan) + 1
        },
        ScanAction::CommitRoot => {
            &&& scan.next_root == scan.roots.len()
            &&& scan.media_files.len() == 0
            &&& scan.current < scan.discovered.len()
            &&& scan.next_file == scan.discovered[scan.current].files.len()
            &&& scan.counters.processed_files == files_taken(scan)
        },
        ScanAction::PersistSkips => {
            &&& scan.pending.len() > 0
            &&& scan.current < scan.discovered.len()
            &&& files_taken(scan) <= scan.counters.processed_files <= files_taken(scan) + 1
        },
        ScanAction::CountDirectories => {
            &&& scan.next_root == scan.roots.len()
            &&& scan.media_files.len() == 0
            &&& scan.current == scan.discovered.len()
            &&& scan.counters.processed_files == files_taken(scan)
        },
        ScanAction::Finish => {
            &&& scan.result is Some
            &&& files_taken(scan) <= scan.counters.processed_files <= files_taken(scan) + 1
            &&& scan.result matches Some(Ok((completed, _))) ==> {
                &&& scan.next_root == scan.roots.len()
                &&& completed == scan.discovered.len()
                &&& scan.current == scan.discovered.len()
                &&& scan.media_files.len() == 0
                &&& scan.counters.processed_files == files_taken(scan)
            }
        },
    }
}

proof fn lemma_files_of_step(roots: Seq<DiscoveredModel>, n: int)
    requires
        0 <= n < roots.len(),
    ensures
        files_of(roots.take(n + 1)) == files_of(roots.take(n)) + roots[n].files.len(),
{
    assert(roots.take(n + 1).drop_last() =~= roots.take(n));
}

proof fn lemma_files_of_take(roots: Seq<DiscoveredModel>, n: int)
    requires
        0 <= n <= roots.len(),
    ensures
        files_of(roots.take(n)) <= files_of(roots),
    decreases roots.len() - n,
{
    if n < roots.len() {
        lemma_files_of_step(roots, n);
        lemma_files_of_take(roots, n + 1);
    } else {
        assert(roots.take(n) =~= roots);
    }
}

proof fn lemma_files_taken(scan: ScanModel)
    requires
        0 <= scan.current <= scan.discovered.len(),
        0 <= scan.next_file,
        scan.current < scan.discovered.len() ==> scan.next_file
            <= scan.discovered[scan.current].files.len(),
        scan.current == scan.discovered.len() ==> scan.next_file == 0,
    ensures
        files_taken(scan) <= files_of(scan.discovered),
        scan.current < scan.discovered.len() && scan.next_file
            < scan.discovered[scan.current].files.len() ==> files_taken(scan) < files_of(
            scan.discovered,
        ),
        scan.current == scan.discovered.len() ==> files_taken(scan) == files_of(scan.discovered),
{
    if scan.current < scan.discovered.len() {
        lemma_files_of_step(scan.discovered, scan.current);
        lemma_files_of_take(scan.discovered, scan.current + 1);
    } else {
        assert(scan.discovered.take(scan.current) =~= scan.discovered);
    }
}

/// A scan between two files: every root is searched, and what was taken up is
/// settled.
spec fn is_between_files(scan: ScanModel) -> bool {
    &&& roots_are_settled(scan)
    &&& files_are_counted(scan)
    &&& files_are_settled(scan)
    &&& scan.next_root == scan.roots.len()
    &&& scan.media_files.len() == 0
    &&& scan.counters.processed_files == files_taken(scan)
}

/// A scan between two roots that are searched.
spec fn is_between_roots(scan: ScanModel) -> bool {
    &&& roots_are_settled(scan)
    &&& files_are_counted(scan)
    &&& files_are_settled(scan)
    &&& nothing_taken(scan)
    &&& scan.media_files.len() == 0
    &&& scan.errors.len() == 0
}

proof fn lemma_at_file(scan: ScanModel, stop: bool)
    requires
        is_between_files(scan),
        scan.current < scan.discovered.len(),
    ensures
        is_sound(at_file(scan, stop).0),
        !stop && scan.next_file < scan.discovered[scan.current].files.len()
            ==> scan.counters.processed_files < usize::MAX,
{
    lemma_files_taken(scan);
}

proof fn lemma_at_discovered(scan: ScanModel, stop: bool)
    requires
        is_between_files(scan),
    ensures
        is_sound(at_discovered(scan, stop).0),
{
    if scan.current < scan.discovered.len() {
        lemma_at_file(scan, stop);
    }
}

proof fn lemma_at_root(scan: ScanModel, stop: bool)
    requires
        is_between_roots(scan),
    ensures
        is_sound(at_root(scan, stop).0),
        scan.next_root == scan.roots.len() ==> is_between_files(scan),
{
    assert(scan.discovered.take(0) =~= Seq::empty());
    assert(files_of(scan.discovered.take(0)) == 0);
    if scan.next_root == scan.roots.len() {
        lemma_at_discovered(scan, stop);
    }
}

/// A scan that begins is sound.
pub proof fn scan_begins_sound(roots: Seq<RootModel>, stop: bool)
    ensures
        is_sound(begun(roots, stop)),
{
    assert(fresh_scan(roots).discovered.take(0) =~= Seq::empty());
}

/// A scan stays sound when ffprobe was tried.
pub proof fn scan_stays_sound_after_ffprobe(
    scan: ScanModel,
    tried: Result<(), String>,
    stop: bool,
)
    requires
        is_sound(scan),
        scan.action == ScanAction::VerifyFfprobe,
    ensures
        is_sound(after_ffprobe(scan, tried, stop).0),
{
    lemma_at_root(scan, stop);
}

proof fn lemma_failed_root(scan: ScanModel, detail: Seq<char>)
    requires
        roots_are_settled(scan),
        scan.next_root < scan.roots.len(),
    ensures
        roots_are_settled(with_failed_root(scan, detail)),
{
}

/// A scan stays sound when a root was looked at.
pub proof fn scan_stays_sound_after_root(scan: ScanModel, is_directory: bool, stop: bool)
    requires
        is_sound(scan),
        scan.action == ScanAction::InspectRoot,
    ensures
        is_sound(after_root(scan, is_directory, stop).0),
{
    if !is_directory {
        let detail = "目录不存在、不可访问或不是目录，已保留原有索引"@;
        lemma_failed_root(scan, detail);
        lemma_at_root(with_failed_root(scan, detail), stop);
    }
}

/// A scan stays sound when an entry was read.
pub proof fn scan_stays_sound_after_entry(
    scan: ScanModel,
    entry: WalkEntry,
    stop: bool,
    windows: bool,
)
    requires
        is_sound(scan),
        scan.action == ScanAction::ReadEntry,
        scan.counters.discovered_files < usize::MAX,
    ensures
        is_sound(after_entry(scan, entry, stop, windows).0),
{
}

/// A scan stays sound when a root was read to the end.
pub proof fn scan_stays_sound_after_walk(scan: ScanModel, stop: bool)
    requires
        is_sound(scan),
        scan.action == ScanAction::ReadEntry,
    ensures
        is_sound(after_walk(scan, stop).0),
{
    lemma_after_walk(scan);
    lemma_at_root(walked(scan), stop);
}

proof fn lemma_after_walk(scan: ScanModel)
    requires
        is_sound(scan),
        scan.action == ScanAction::ReadEntry,
    ensures
        is_between_roots(walked(scan)),
{
    let next = walked(scan);
    if scan.errors.len() == 0 {
        assert(next.discovered.drop_last() =~= scan.discovered);
        assert(next.discovered.take(0) =~= Seq::empty());
    }
    assert(scan.discovered.take(0) =~= Seq::empty());
}

/// A scan stays sound when a file was analysed.
pub proof fn scan_stays_sound_after_file(
    scan: ScanModel,
    analysis: Result<AnalyzedFile, AnalyzeSkip>,
    stop: bool,
)
    requires
        is_sound(scan),
        scan.action == ScanAction::AnalyzeFile,
    ensures
        is_sound(after_file(scan, analysis, stop).0),
{
    lemma_files_taken(scan);
    match analysis {
        Ok(file) => {
            lemma_at_file(with_analyzed(scan, file), stop);
        },
        Err(AnalyzeSkip::Failed { reason, detail }) => {
            lemma_at_file(with_skip(scan, reason@, detail@, false), stop);
        },
        Err(AnalyzeSkip::ShortVideo) => {
            lemma_at_file(
                with_skip(
                    scan,
                    "short_video"@,
                    "短视频少于 5 分钟，已从媒体库过滤"@,
                    true,
                ),
                stop,
            );
        },
        Err(AnalyzeSkip::Stopped) => {},
    }
}

/// A scan stays sound when a root was stored.
pub proof fn scan_stays_sound_after_commit(
    scan: ScanModel,
    committed: Result<(), String>,
    stop: bool,
)
    requires
        is_sound(scan),
        scan.action == ScanAction::CommitRoot,
    ensures
        is_sound(after_commit(scan, committed, stop).0),
{
    lemma_files_taken(scan);
    lemma_files_of_step(scan.discovered, scan.current);
    if committed is Ok {
        lemma_at_discovered(committed_root(scan), stop);
    }
}

/// A scan stays sound when it ends.
pub proof fn scan_ends_sound(
    scan: ScanModel,
    persisted: Result<(), String>,
    counted: Result<usize, String>,
)
    requires
        is_sound(scan),
    ensures
        scan.action == ScanAction::PersistSkips ==> is_sound(after_persist(scan, persisted)),
        scan.action == ScanAction::CountDirectories ==> is_sound(after_count(scan, counted)),
{
}

/// A scan that was not broken off has settled everything: each root failed or
/// was completed, and each file that was found was imported or left out.
pub proof fn finished_scan_settles_everything(scan: ScanModel)
    requires
        is_sound(scan),
        scan.action == ScanAction::Finish,
        scan.result matches Some(Ok(_)),
    ensures
        scan.failed.len() + scan.result->0->Ok_0.0 == scan.roots.len(),
        scan.counters.processed_files == scan.counters.discovered_files,
        scan.counters.imported_files + scan.counters.skipped_files
            == scan.counters.processed_files,
{
    lemma_files_taken(scan);
}

/// A stop that was asked for ends the scan at the next step: all that can still
/// be done is to store which files were left out. Only a root that was just
/// found to be a directory is read first.
pub proof fn stop_ends_the_scan(
    scan: ScanModel,
    entry: WalkEntry,
    analysis: Result<AnalyzedFile, AnalyzeSkip>,
    done: Result<(), String>,
    windows: bool,
)
    ensures
        is_ending(begun(scan.roots, true)),
        is_ending(after_ffprobe(scan, done, true).0),
        is_ending(after_root(scan, false, true).0),
        is_ending(after_entry(scan, entry, true, windows).0),
        is_ending(after_walk(scan, true).0),
        is_ending(after_file(scan, analysis, true).0),
        is_ending(after_commit(scan, done, true).0),
{
}

/// The scan is over, or stores only which files were left out.
pub open spec fn is_ending(scan: ScanModel) -> bool {
    scan.action == ScanAction::Finish || scan.action == ScanAction::PersistSkips
}

/// A stop keeps what is known of the files that were left out: where there are
/// any, they are stored before the scan ends.
pub proof fn stop_keeps_the_skips(scan: ScanModel)
    ensures
        at_file(scan, true).0.pending == scan.pending,
        scan.pending.len() > 0 ==> at_file(scan, true).0.action == ScanAction::PersistSkips,
        scan.pending.len() == 0 ==> at_file(scan, true).0 == stopped(scan),
{
}

/// A root that could not be read in full, or is no directory, is a failed root
/// and none of those that are stored: what was stored of it before stays.
pub proof fn failed_roots_keep_their_index(scan: ScanModel, stop: bool)
    ensures
        after_root(scan, false, stop).0.discovered == scan.discovered,
        after_root(scan, false, stop).0.failed.len() == scan.failed.len() + 1,
        scan.errors.len() > 0 ==> after_walk(scan, stop).0.discovered == scan.discovered,
        scan.errors.len() > 0 ==> after_walk(scan, stop).0.failed.len() == scan.failed.len() + 1,
{
}

// ---------------------------------------------------------------------------
// The scan
// ---------------------------------------------------------------------------

/// A scan that is going on.
pub struct Scan {
    roots: Vec<RootSpec>,
    action: ScanAction,
    counters: ScanCounters,
    next_root: usize,
    failed: Vec<FailedRoot>,
    discovered: Vec<DiscoveredRoot>,
    media_files: Vec<String>,
    errors: Vec<String>,
    current: usize,
    next_file: usize,
    analyzed: Vec<AnalyzedFile>,
    pending: Vec<PendingSkip>,
    result: Option<Result<(usize, usize), String>>,
}

impl View for Scan {
    type V = ScanModel;

    closed spec fn view(&self) -> ScanModel {
        ScanModel {
            roots: root_models(self.roots@),
            action: self.action,
            counters: self.counters,
            next_root: self.next_root as int,
            failed: failed_models(self.failed@),
            discovered: discovered_models(self.discovered@),
            media_files: texts(self.media_files@),
            errors: texts(self.errors@),
            current: self.current as int,
            next_file: self.next_file as int,
            analyzed: self.analyzed@,
            pending: skip_models(self.pending@),
            result: match self.result {
                Some(Ok((completed, recorded))) => Some(Ok((completed as nat, recorded as nat))),
                Some(Err(error)) => Some(Err(error@)),
                None => None,
            },
        }
    }
}

fn notice(
    phase: &str,
    counters: ScanCounters,
    total_files: Option<usize>,
    current_path: Option<String>,
    detail: &str,
    starts_file: bool,
    force: bool,
) -> (r: ScanNotice)
    ensures
        r.model() == (NoticeModel {
            phase: phase@,
            counters,
            total_files: match total_files {
                Some(total) => Some(total as nat),
                None => None,
            },
            current_path: opt_text(current_path),
            detail: detail@,
            starts_file,
            force,
        }),
{
    ScanNotice {
        phase: phase.to_string(),
        counters,
        total_files,
        current_path,
        detail: detail.to_string(),
        starts_file,
        force,
    }
}

fn tell(notices: &mut Vec<ScanNotice>, notice: ScanNotice)
    ensures
        notice_models(final(notices)@) == notice_models(old(notices)@).push(notice.model()),
{
    let ghost before = notices@;
    let ghost added = notice;
    notices.push(notice);
    proof {
        assert(notice_models(notices@) =~= notice_models(before).push(added.model()));
    }
}

impl Scan {
    /// A scan of roots begins.
    pub fn begin(roots: Vec<RootSpec>, stop_requested: bool) -> (r: Self)
        ensures
            r@ == begun(root_models(roots@), stop_requested),
            is_sound(r@),
    {
        let ghost models = root_models(roots@);
        let mut scan = Scan {
            roots,
            action: ScanAction::VerifyFfprobe,
            counters: ScanCounters::default(),
            next_root: 0,
            failed: Vec::new(),
            discovered: Vec::new(),
            media_files: Vec::new(),
            errors: Vec::new(),
            current: 0,
            next_file: 0,
            analyzed: Vec::new(),
            pending: Vec::new(),
            result: None,
        };
        if stop_requested {
            scan.break_off(SCAN_STOPPED_MESSAGE.to_string());
        }
        proof {
            assert(failed_models(scan.failed@) =~= Seq::empty());
            assert(discovered_models(scan.discovered@) =~= Seq::empty());
            assert(texts(scan.media_files@) =~= Seq::empty());
            assert(texts(scan.errors@) =~= Seq::empty());
            assert(skip_models(scan.pending@) =~= Seq::empty());
            scan_begins_sound(models, stop_requested);
        }
        scan
    }

    /// What is to be done next.
    pub fn action(&self) -> (r: ScanAction)
        ensures
            r == self@.action,
    {
        self.action
    }

    /// The files counted so far.
    pub fn counters(&self) -> (r: ScanCounters)
        ensures
            r == self@.counters,
    {
        self.counters
    }

    fn break_off(&mut self, error: String)
        ensures
            final(self)@ == broken_off(old(self)@, error@),
    {
        self.action = ScanAction::Finish;
        self.result = Some(Err(error));
    }

    fn stop_in_root(&mut self)
        ensures
            final(self)@ == stopped_in_root(old(self)@),
    {
        proof {
            assert(self@.pending.len() == self.pending@.len());
        }
        if self.pending.len() == 0 {
            self.break_off(SCAN_STOPPED_MESSAGE.to_string());
        } else {
            self.action = ScanAction::PersistSkips;
        }
    }

    fn to_file(&mut self, stop_requested: bool, notices: &mut Vec<ScanNotice>)
        requires
            is_between_files(old(self)@),
            old(self)@.current < old(self)@.discovered.len(),
        ensures
            final(self)@ == at_file(old(self)@, stop_requested).0,
            notice_models(final(notices)@) == notice_models(old(notices)@) + at_file(
                old(self)@,
                stop_requested,
            ).1,
    {
        let ghost before = self@;
        proof {
            lemma_at_file(before, stop_requested);
            lemma_files_taken(before);
            assert(before.discovered[before.current] == self.discovered@[self.current as int].model());
            assert(before.discovered.len() == self.discovered@.len());
        }
        if stop_requested {
            self.stop_in_root();
        } else if self.next_file < self.discovered[self.current].media_files.len() {
            let path = self.discovered[self.current].media_files[self.next_file].clone();
            proof {
                assert(before.discovered[before.current].files[before.next_file] == path@);
            }
            self.counters.processed_files += 1;
            self.action = ScanAction::AnalyzeFile;
            tell(
                notices,
                notice(
                    "processing",
                    self.counters,
                    Some(self.counters.discovered_files),
                    Some(path),
                    "正在调用 ffprobe 分析媒体流",
                    true,
                    true,
                ),
            );
        } else {
            self.action = ScanAction::CommitRoot;
        }
        proof {
            assert(notice_models(notices@) =~= notice_models(old(notices)@) + at_file(
                before,
                stop_requested,
            ).1);
        }
    }

    fn to_discovered(&mut self, stop_requested: bool, notices: &mut Vec<ScanNotice>)
        requires
            is_between_files(old(self)@),
        ensures
            final(self)@ == at_discovered(old(self)@, stop_requested).0,
            notice_models(final(notices)@) == notice_models(old(notices)@) + at_discovered(
                old(self)@,
                stop_requested,
            ).1,
    {
        proof {
            assert(self@.discovered.len() == self.discovered@.len());
        }
        if self.current < self.discovered.len() {
            self.to_file(stop_requested, notices);
        } else if stop_requested {
            self.break_off(SCAN_STOPPED_MESSAGE.to_string());
        } else {
            self.action = ScanAction::CountDirectories;
        }
        proof {
            assert(notice_models(notices@) =~= notice_models(old(notices)@) + at_discovered(
                old(self)@,
                stop_requested,
            ).1);
        }
    }

    fn to_root(&mut self, stop_requested: bool, notices: &mut Vec<ScanNotice>)
        requires
            is_between_roots(old(self)@),
        ensures
            final(self)@ == at_root(old(self)@, stop_requested).0,
            notice_models(final(notices)@) == notice_models(old(notices)@) + at_root(
                old(self)@,
                stop_requested,
            ).1,
    {
        proof {
            lemma_at_root(self@, stop_requested);
            assert(self@.roots.len() == self.roots@.len());
        }
        if self.next_root < self.roots.len() {
            if stop_requested {
                self.break_off(SCAN_STOPPED_MESSAGE.to_string());
            } else {
                self.action = ScanAction::InspectRoot;
            }
        } else {
            tell(
                notices,
                notice(
                    "processing",
                    self.counters,
                    Some(self.counters.discovered_files),
                    None,
                    "开始分析媒体文件",
                    false,
                    true,
                ),
            );
            self.to_discovered(stop_requested, notices);
        }
        proof {
            assert(notice_models(notices@) =~= notice_models(old(notices)@) + at_root(
                old(self)@,
                stop_requested,
            ).1);
        }
    }

    /// ffprobe was tried.
    pub fn ffprobe_verified(&mut self, tried: Result<(), String>, stop_requested: bool) -> (r: Vec<
        ScanNotice,
    >)
        requires
            is_sound(old(self)@),
            old(self)@.action == ScanAction::VerifyFfprobe,
        ensures
            (final(self)@, notice_models(r@)) == after_ffprobe(old(self)@, tried, stop_requested),
            is_sound(final(self)@),
    {
        let ghost before = self@;
        let mut notices: Vec<ScanNotice> = Vec::new();
        proof {
            scan_stays_sound_after_ffprobe(before, tried, stop_requested);
            assert(notice_models(notices@) =~= Seq::empty());
        }
        match tried {
            Err(error) => {
                self.break_off("ffprobe 预检失败：".to_string().concat(error.as_str()));
            },
            Ok(_) => {
                tell(
                    &mut notices,
                    notice(
                        "discovering",
                        self.counters,
                        None,
                        None,
                        "准备统计目录媒体文件",
                        false,
                        true,
                    ),
                );
                self.to_root(stop_requested, &mut notices);
            },
        }
        proof {
            assert(notice_models(notices@) =~= after_ffprobe(before, tried, stop_requested).1);
        }
        notices
    }

    fn fail_root(&mut self, detail: String)
        requires
            old(self)@.next_root < old(self)@.roots.len(),
        ensures
            final(self)@ == with_failed_root(old(self)@, detail@),
    {
        let ghost before = self@;
        proof {
            assert(before.roots[before.next_root] == self.roots@[self.next_root as int].model());
            assert(before.roots.len() == self.roots@.len());
        }
        let root_count = self.roots.len();
        assert(self.next_root < root_count);
        let failed = FailedRoot { path: self.roots[self.next_root].display_path.clone(), detail };
        let ghost added = failed.model();
        let ghost failed_before = self.failed@;
        self.failed.push(failed);
        self.next_root += 1;
        self.media_files = Vec::new();
        self.errors = Vec::new();
        proof {
            assert(failed_models(self.failed@) =~= failed_models(failed_before).push(added));
            assert(texts(self.media_files@) =~= Seq::empty());
            assert(texts(self.errors@) =~= Seq::empty());
        }
    }

    /// The root that is searched: to be looked at, or read entry by entry.
    pub fn searched_root(&self) -> (r: &RootSpec)
        requires
            is_sound(self@),
            self@.action == ScanAction::InspectRoot || self@.action == ScanAction::ReadEntry,
        ensures
            r.model() == self@.roots[self@.next_root],
    {
        proof {
            assert(self@.roots.len() == self.roots@.len());
        }
        &self.roots[self.next_root]
    }

    /// The current root was looked at.
    pub fn root_inspected(&mut self, is_directory: bool, stop_requested: bool) -> (r: Vec<
        ScanNotice,
    >)
        requires
            is_sound(old(self)@),
            old(self)@.action == ScanAction::InspectRoot,
        ensures
            (final(self)@, notice_models(r@)) == after_root(
                old(self)@,
                is_directory,
                stop_requested,
            ),
            is_sound(final(self)@),
    {
        let ghost before = self@;
        let mut notices: Vec<ScanNotice> = Vec::new();
        proof {
            scan_stays_sound_after_root(before, is_directory, stop_requested);
            lemma_failed_root(before, "目录不存在、不可访问或不是目录，已保留原有索引"@);
            assert(notice_models(notices@) =~= Seq::empty());
        }
        if is_directory {
            self.action = ScanAction::ReadEntry;
        } else {
            let path = self.searched_root().display_path.clone();
            tell(
                &mut notices,
                notice(
                    "discovering",
                    self.counters,
                    None,
                    Some(path),
                    "根目录不可用，已保留原有索引",
                    false,
                    true,
                ),
            );
            self.fail_root("目录不存在、不可访问或不是目录，已保留原有索引".to_string());
            self.to_root(stop_requested, &mut notices);
        }
        proof {
            assert(notice_models(notices@) =~= after_root(
                before,
                is_directory,
                stop_requested,
            ).1);
        }
        notices
    }

    /// An entry of the current root was read.
    pub fn entry_read(&mut self, entry: WalkEntry, stop_requested: bool, rules: PathRules) -> (r:
        Vec<ScanNotice>)
        requires
            is_sound(old(self)@),
            old(self)@.action == ScanAction::ReadEntry,
            old(self)@.counters.discovered_files < usize::MAX,
        ensures
            (final(self)@, notice_models(r@)) == after_entry(
                old(self)@,
                entry,
                stop_requested,
                rules.windows(),
            ),
            is_sound(final(self)@),
    {
        let ghost before = self@;
        let mut notices: Vec<ScanNotice> = Vec::new();
        proof {
            scan_stays_sound_after_entry(before, entry, stop_requested, rules.windows());
            assert(notice_models(notices@) =~= Seq::empty());
        }
        if stop_requested {
            self.break_off(SCAN_STOPPED_MESSAGE.to_string());
            return notices;
        }
        match entry {
            WalkEntry::Unreadable { error } => {
                let ghost errors_before = self.errors@;
                let ghost added = error@;
                self.errors.push(error);
                proof {
                    assert(texts(self.errors@) =~= texts(errors_before).push(added));
                }
            },
            WalkEntry::Found { path, is_file } => {
                if is_file && is_media_file(path.as_str(), rules) {
                    self.counters.discovered_files += 1;
                    tell(
                        &mut notices,
                        notice(
                            "discovering",
                            self.counters,
                            None,
                            Some(path.clone()),
                            "发现媒体文件",
                            false,
                            false,
                        ),
                    );
                    let ghost files_before = self.media_files@;
                    let ghost added = path@;
                    self.media_files.push(path);
                    proof {
                        assert(texts(self.media_files@) =~= texts(files_before).push(added));
                    }
                }
            },
        }
        proof {
            assert(notice_models(notices@) =~= after_entry(
                before,
                entry,
                stop_requested,
                rules.windows(),
            ).1);
        }
        notices
    }

    fn unread(&self) -> (r: String)
        requires
            self@.errors.len() > 0,
        ensures
            r@ == unread_detail(self@.errors),
    {
        proof {
            assert(self@.errors.len() == self.errors@.len());
            assert(self@.errors[0] == self.errors@[0]@);
        }
        let begin = "目录遍历不完整：".to_string().concat(self.errors[0].as_str());
        if self.errors.len() == 1 {
            begin.concat("；已保留原有索引")
        } else {
            let more = count_text(self.errors.len() - 1);
            begin.concat("；另有 ").concat(more.as_str()).concat(" 个错误；已保留原有索引")
        }
    }

    /// The current root was read to the end.
    pub fn walk_ended(&mut self, stop_requested: bool) -> (r: Vec<ScanNotice>)
        requires
            is_sound(old(self)@),
            old(self)@.action == ScanAction::ReadEntry,
        ensures
            (final(self)@, notice_models(r@)) == after_walk(old(self)@, stop_requested),
            is_sound(final(self)@),
    {
        let ghost before = self@;
        let mut notices: Vec<ScanNotice> = Vec::new();
        proof {
            scan_stays_sound_after_walk(before, stop_requested);
            lemma_after_walk(before);
            assert(notice_models(notices@) =~= Seq::empty());
            assert(before.errors.len() == self.errors@.len());
            assert(before.media_files.len() == self.media_files@.len());
            assert(before.roots.len() == self.roots@.len());
        }
        if self.errors.len() == 0 {
            let root_count = self.roots.len();
            assert(self.next_root < root_count);
            let mut media_files: Vec<String> = Vec::new();
            std::mem::swap(&mut self.media_files, &mut media_files);
            let found = DiscoveredRoot { root: self.next_root, media_files };
            let ghost added = found.model();
            let ghost discovered_before = self.discovered@;
            self.discovered.push(found);
            self.next_root += 1;
            proof {
                assert(discovered_models(self.discovered@) =~= discovered_models(
                    discovered_before,
                ).push(added));
                assert(texts(self.media_files@) =~= Seq::empty());
                assert(self@ == walked(before));
            }
        } else {
            let detail = self.unread();
            let path = self.searched_root().display_path.clone();
            self.counters.discovered_files = self.counters.discovered_files.saturating_sub(
                self.media_files.len(),
            );
            self.fail_root(detail);
            proof {
                assert(self@ == walked(before));
            }
            tell(
                &mut notices,
                notice(
                    "discovering",
                    self.counters,
                    None,
                    Some(path),
                    "目录遍历不完整，已保留原有索引",
                    false,
                    true,
                ),
            );
        }
        self.to_root(stop_requested, &mut notices);
        proof {
            assert(notice_models(notices@) =~= after_walk(before, stop_requested).1);
        }
        notices
    }

    /// The root whose files are analysed and stored.
    pub fn analyzed_root(&self) -> (r: &RootSpec)
        requires
            is_sound(self@),
            self@.current < self@.discovered.len(),
        ensures
            r.model() == current_root(self@),
    {
        proof {
            assert(self@.roots.len() == self.roots@.len());
            assert(self@.discovered.len() == self.discovered@.len());
            assert(self@.discovered[self@.current] == self.discovered@[self.current as int].model());
        }
        &self.roots[self.discovered[self.current].root]
    }

    /// The path of the file that is analysed.
    pub fn analyzed_path(&self) -> (r: &String)
        requires
            is_sound(self@),
            self@.action == ScanAction::AnalyzeFile,
        ensures
            r@ == current_file(self@),
    {
        proof {
            assert(self@.discovered.len() == self.discovered@.len());
            assert(self@.discovered[self@.current] == self.discovered@[self.current as int].model());
        }
        &self.discovered[self.current].media_files[self.next_file]
    }

    /// The files of the current root that are to be stored.
    pub fn analyzed_files(&self) -> (r: &Vec<AnalyzedFile>)
        ensures
            r@ == self@.analyzed,
    {
        &self.analyzed
    }

    /// The files of the current root that were left out.
    pub fn pending_skips(&self) -> (r: &Vec<PendingSkip>)
        ensures
            skip_models(r@) == self@.pending,
    {
        &self.pending
    }

    fn skip_file(&mut self, reason: String, detail: String, is_short_video: bool)
        requires
            is_sound(old(self)@),
            old(self)@.action == ScanAction::AnalyzeFile,
        ensures
            final(self)@ == with_skip(old(self)@, reason@, detail@, is_short_video),
    {
        let ghost before = self@;
        let root = self.analyzed_root();
        let skip = PendingSkip {
            path: self.analyzed_path().clone(),
            root_path: root.path.clone(),
            root_key: root.key.clone(),
            reason,
            detail,
            is_short_video,
        };
        let ghost added = skip.model();
        let ghost pending_before = self.pending@;
        proof {
            lemma_files_taken(before);
        }
        self.counters.skipped_files += 1;
        if is_short_video {
            self.counters.skipped_short_files += 1;
        }
        self.pending.push(skip);
        self.next_file += 1;
        proof {
            assert(skip_models(self.pending@) =~= skip_models(pending_before).push(added));
        }
    }

    /// The current file was analysed.
    pub fn file_analyzed(
        &mut self,
        analysis: Result<AnalyzedFile, AnalyzeSkip>,
        stop_requested: bool,
    ) -> (r: Vec<ScanNotice>)
        requires
            is_sound(old(self)@),
            old(self)@.action == ScanAction::AnalyzeFile,
        ensures
            (final(self)@, notice_models(r@)) == after_file(old(self)@, analysis, stop_requested),
            is_sound(final(self)@),
    {
        let ghost before = self@;
        let mut notices: Vec<ScanNotice> = Vec::new();
        let path = self.analyzed_path().clone();
        proof {
            scan_stays_sound_after_file(before, analysis, stop_requested);
            lemma_files_taken(before);
            assert(before.discovered.len() == self.discovered@.len());
            assert(before.discovered[before.current] == self.discovered@[self.current as int].model());
            assert(notice_models(notices@) =~= Seq::empty());
        }
        match analysis {
            Ok(file) => {
                self.analyzed.push(file);
                self.next_file += 1;
            },
            Err(AnalyzeSkip::ShortVideo) => {
                self.skip_file(
                    "short_video".to_string(),
                    "短视频少于 5 分钟，已从媒体库过滤".to_string(),
                    true,
                );
            },
            Err(AnalyzeSkip::Failed { reason, detail }) => {
                self.skip_file(reason, detail, false);
            },
            Err(AnalyzeSkip::Stopped) => {
                self.stop_in_root();
                return notices;
            },
        }
        tell(
            &mut notices,
            notice(
                "processing",
                self.counters,
                Some(self.counters.discovered_files),
                Some(path),
                "当前文件处理完成",
                false,
                false,
            ),
        );
        self.to_file(stop_requested, &mut notices);
        proof {
            assert(notice_models(notices@) =~= after_file(before, analysis, stop_requested).1);
        }
        notices
    }

    /// The current root was stored.
    pub fn root_committed(&mut self, committed: Result<(), String>, stop_requested: bool) -> (r: Vec<
        ScanNotice,
    >)
        requires
            is_sound(old(self)@),
            old(self)@.action == ScanAction::CommitRoot,
        ensures
            (final(self)@, notice_models(r@)) == after_commit(
                old(self)@,
                committed,
                stop_requested,
            ),
            is_sound(final(self)@),
    {
        let ghost before = self@;
        let mut notices: Vec<ScanNotice> = Vec::new();
        proof {
            scan_stays_sound_after_commit(before, committed, stop_requested);
            lemma_files_taken(before);
            lemma_files_of_step(before.discovered, before.current);
            assert(before.discovered.len() == self.discovered@.len());
            assert(notice_models(notices@) =~= Seq::empty());
        }
        match committed {
            Err(error) => {
                self.break_off(error);
            },
            Ok(_) => {
                let path = self.analyzed_root().display_path.clone();
                self.counters.imported_files += self.analyzed.len();
                self.current += 1;
                self.next_file = 0;
                self.analyzed = Vec::new();
                self.pending = Vec::new();
                proof {
                    assert(skip_models(self.pending@) =~= Seq::empty());
                    assert(self@ == committed_root(before));
                }
                tell(
                    &mut notices,
                    notice(
                        "processing",
                        self.counters,
                        Some(self.counters.discovered_files),
                        Some(path),
                        "根目录索引已提交",
                        false,
                        true,
                    ),
                );
                self.to_discovered(stop_requested, &mut notices);
            },
        }
        proof {
            assert(notice_models(notices@) =~= after_commit(before, committed, stop_requested).1);
        }
        notices
    }

    /// The files that were left out in the current root were stored.
    pub fn skips_persisted(&mut self, persisted: Result<(), String>)
        requires
            is_sound(old(self)@),
            old(self)@.action == ScanAction::PersistSkips,
        ensures
            final(self)@ == after_persist(old(self)@, persisted),
            is_sound(final(self)@),
    {
        match persisted {
            Err(error) => {
                self.break_off(
                    SCAN_STOPPED_MESSAGE.to_string().concat(
                        "；无法保存已产生的跳过明细：",
                    ).concat(error.as_str()),
                );
            },
            Ok(_) => {
                self.break_off(SCAN_STOPPED_MESSAGE.to_string());
            },
        }
    }

    /// The stored directories were counted.
    pub fn directories_counted(&mut self, counted: Result<usize, String>)
        requires
            is_sound(old(self)@),
            old(self)@.action == ScanAction::CountDirectories,
        ensures
            final(self)@ == after_count(old(self)@, counted),
            is_sound(final(self)@),
    {
        proof {
            assert(self@.discovered.len() == self.discovered@.len());
        }
        match counted {
            Err(error) => {
                self.break_off(error);
            },
            Ok(count) => {
                self.action = ScanAction::Finish;
                self.result = Some(Ok((self.discovered.len(), count)));
            },
        }
    }

    /// What came of a scan that is over.
    pub fn into_result(self) -> (r: Result<ScanOutcome, String>)
        requires
            is_sound(self@),
            self@.action == ScanAction::Finish,
        ensures
            match self@.result->0 {
                Ok((completed, recorded)) => r matches Ok(outcome) && outcome.model() == (
                OutcomeModel {
                    failed_roots: self@.failed,
                    completed_roots: completed,
                    recorded_directories: recorded,
                }),
                Err(error) => r matches Err(message) && message@ == error,
            },
    {
        match self.result {
            Some(Ok((completed_roots, recorded_directories))) => Ok(
                ScanOutcome { failed_roots: self.failed, completed_roots, recorded_directories },
            ),
            Some(Err(error)) => Err(error),
            None => Err(String::new()),
        }
    }
}

} // verus!
