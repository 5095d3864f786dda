//! The life of an import job: who may act on it, which status allows what,
//! where a job goes next, and how chunked uploads are written.

use vstd::prelude::*;

use crate::error::AppError;
use crate::imports::draft::{AgentState, ImportAnalysis};
use crate::imports::fields::spec_project_name_hint;
use crate::paths::{safe_relative, normal_relative, is_normal_relative_path};
use crate::projects::{opt_view, strings_view};
use crate::text::{
    ascii_lowercase, chars_of, contains, decimal, eq_lit, one_of, is_one_of, push_decimal,
    push_str, string_of, to_ascii_lowercase, trim, trim_chars,
};

verus! {

// ----------------------------------------------------------------------------
// Who and when
// ----------------------------------------------------------------------------

/// Only the member who created a job, or a super administrator, may act on it.
pub fn check_job_owner(owner_sid: &str, sid: &str, is_superadmin: bool) -> (r: Result<(), AppError>)
    ensures
        r is Ok <==> (owner_sid@ == sid@ || is_superadmin),
        r is Err ==> r == Err::<(), AppError>(AppError::Forbidden),
{
    let a = chars_of(owner_sid);
    let b = chars_of(sid);
    if !crate::text::chars_eq(a.as_slice(), b.as_slice()) && !is_superadmin {
        Err(AppError::Forbidden)
    } else {
        Ok(())
    }
}

/// The statuses in which a job has ended.
pub const TERMINAL_STATUSES: [&'static str; 3] = ["completed", "failed", "cancelled"];

pub open spec fn is_terminal(status: Seq<char>) -> bool {
    one_of(status, TERMINAL_STATUSES@)
}

/// A job that has not ended may be cancelled.
pub fn check_cancellable(status: &str) -> (r: Result<(), AppError>)
    ensures
        r is Ok <==> !is_terminal(status@),
        r matches Err(e) ==> (e matches AppError::Conflict(m) && m@ == "该整理任务已经结束"@),
{
    let s = chars_of(status);
    if is_one_of(s.as_slice(), &TERMINAL_STATUSES) {
        Err(AppError::Conflict(String::from_str("该整理任务已经结束")))
    } else {
        Ok(())
    }
}

/// A cancelled job is at an end: cancelling it again is refused.
pub proof fn law_cancelled_job_is_terminal()
    ensures
        is_terminal("cancelled"@),
{
    assert(TERMINAL_STATUSES@[2]@ == "cancelled"@);
}

/// A job in progress can be cancelled, an ended one cannot; of the statuses
/// that a cancellation, a failure and a completion leave, none can.
pub proof fn law_end_statuses_are_final(status: Seq<char>)
    requires
        status == "completed"@ || status == "failed"@ || status == "cancelled"@,
    ensures
        is_terminal(status),
{
    if status == "completed"@ {
        assert(TERMINAL_STATUSES@[0]@ == status);
    } else if status == "failed"@ {
        assert(TERMINAL_STATUSES@[1]@ == status);
    } else {
        assert(TERMINAL_STATUSES@[2]@ == status);
    }
}

/// A member's request to refine a completed import.
pub struct RefinementInput {
    pub prompt: String,
}

/// A refinement is a text of 1 to 4000 characters after trimming; the result
/// is the trimmed text.
pub fn check_refinement(prompt: &str) -> (r: Result<String, AppError>)
    ensures
        match r {
            Ok(t) => t@ == trim(prompt@) && 0 < trim(prompt@).len() <= 4000,
            Err(e) => !(0 < trim(prompt@).len() <= 4000) && (e matches AppError::BadRequest(m)
                && m@ == "补充提示词不能为空且不能超过 4000 个字符"@),
        },
{
    let p = chars_of(prompt);
    let t = trim_chars(p.as_slice());
    if t.len() == 0 || t.len() > 4000 {
        Err(AppError::BadRequest(String::from_str("补充提示词不能为空且不能超过 4000 个字符")))
    } else {
        Ok(string_of(t.as_slice()))
    }
}

/// Only a completed job takes a refinement.
pub fn check_refinable(status: &str) -> (r: Result<(), AppError>)
    ensures
        r is Ok <==> status@ == "completed"@,
        r matches Err(e) ==> (e matches AppError::Conflict(m) && m@
            == "请等待整理流程完成后再提交补充提示"@),
{
    let s = chars_of(status);
    if eq_lit(s.as_slice(), "completed") {
        Ok(())
    } else {
        Err(AppError::Conflict(String::from_str("请等待整理流程完成后再提交补充提示")))
    }
}

// ----------------------------------------------------------------------------
// Where a job goes next
// ----------------------------------------------------------------------------

/// The status, stage and progress a job moves to, and the event recorded.
#[derive(Clone, Debug)]
pub struct JobTransition {
    pub status: String,
    pub stage: String,
    pub progress: i64,
    pub event_type: String,
    pub message: String,
}

pub open spec fn transition_is(
    t: JobTransition,
    status: Seq<char>,
    stage: Seq<char>,
    progress: i64,
    event_type: Seq<char>,
    message: Seq<char>,
) -> bool {
    &&& t.status@ == status
    &&& t.stage@ == stage
    &&& t.progress == progress
    &&& t.event_type@ == event_type
    &&& t.message@ == message
}

fn transition(status: &str, stage: &str, progress: i64, event_type: &str, message: &str) -> (r:
    JobTransition)
    ensures
        transition_is(r, status@, stage@, progress, event_type@, message@),
{
    JobTransition {
        status: String::from_str(status),
        stage: String::from_str(stage),
        progress,
        event_type: String::from_str(event_type),
        message: String::from_str(message),
    }
}

/// After a refinement: queued for the agent where it is on, else completed
/// again with the refinement kept for later.
pub fn refinement_transition(agent_enabled: bool) -> (r: JobTransition)
    ensures
        agent_enabled ==> transition_is(
            r,
            "agent_queued"@,
            "等待 Codex 分析"@,
            82,
            "agent_queued"@,
            "补充提示已加入上下文，Codex 任务已经排队"@,
        ),
        !agent_enabled ==> transition_is(
            r,
            "completed"@,
            "补充提示已保存，等待 Codex 配置"@,
            100,
            "refinement_saved"@,
            "补充提示已加入任务上下文；配置 Codex 后即可运行"@,
        ),
{
    if agent_enabled {
        transition(
            "agent_queued",
            "等待 Codex 分析",
            82,
            "agent_queued",
            "补充提示已加入上下文，Codex 任务已经排队",
        )
    } else {
        transition(
            "completed",
            "补充提示已保存，等待 Codex 配置",
            100,
            "refinement_saved",
            "补充提示已加入任务上下文；配置 Codex 后即可运行",
        )
    }
}

/// After the material is organised: queued for the agent where it is on,
/// else completed with the deterministic draft.
pub fn organised_transition(agent_enabled: bool) -> (r: JobTransition)
    ensures
        agent_enabled ==> transition_is(
            r,
            "agent_queued"@,
            "等待 Codex 分析"@,
            82,
            "agent_queued"@,
            "本地材料整理完成，Codex 任务已经排队"@,
        ),
        !agent_enabled ==> transition_is(
            r,
            "completed"@,
            "等待确认"@,
            100,
            "completed"@,
            "材料整理完成，项目草稿已生成"@,
        ),
{
    if agent_enabled {
        transition(
            "agent_queued",
            "等待 Codex 分析",
            82,
            "agent_queued",
            "本地材料整理完成，Codex 任务已经排队",
        )
    } else {
        transition("completed", "等待确认", 100, "completed", "材料整理完成，项目草稿已生成")
    }
}

/// When a worker claims a job: an agent job starts its Codex run, any other
/// job starts preparing its material. The message names the worker.
pub fn claim_transition(claimed_status: &str, worker_id: &str) -> (r: JobTransition)
    ensures
        claimed_status@ == "agent_running"@ ==> transition_is(
            r,
            "agent_running"@,
            "启动 Codex 分析"@,
            84,
            "claimed"@,
            "任务已由 "@ + worker_id@ + " 领取"@,
        ),
        claimed_status@ != "agent_running"@ ==> transition_is(
            r,
            "normalizing"@,
            "准备材料"@,
            10,
            "claimed"@,
            "任务已由 "@ + worker_id@ + " 领取"@,
        ),
{
    let mut m = crate::text::lit("任务已由 ");
    push_str(&mut m, worker_id);
    push_str(&mut m, " 领取");
    let message = string_of(m.as_slice());
    let s = chars_of(claimed_status);
    if eq_lit(s.as_slice(), "agent_running") {
        JobTransition {
            status: String::from_str("agent_running"),
            stage: String::from_str("启动 Codex 分析"),
            progress: 84,
            event_type: String::from_str("claimed"),
            message,
        }
    } else {
        JobTransition {
            status: String::from_str("normalizing"),
            stage: String::from_str("准备材料"),
            progress: 10,
            event_type: String::from_str("claimed"),
            message,
        }
    }
}

/// When a claimed job fails: an agent job completes with its local draft, any
/// other job fails. The message says why.
pub fn failure_transition(is_agent_job: bool, message: String) -> (r: JobTransition)
    ensures
        is_agent_job ==> transition_is(
            r,
            "completed"@,
            "Codex 分析失败，保留本地草稿"@,
            100,
            "agent_fallback"@,
            message@,
        ),
        !is_agent_job ==> transition_is(r, "failed"@, "解析失败"@, 100, "failed"@, message@),
{
    if is_agent_job {
        JobTransition {
            status: String::from_str("completed"),
            stage: String::from_str("Codex 分析失败，保留本地草稿"),
            progress: 100,
            event_type: String::from_str("agent_fallback"),
            message,
        }
    } else {
        JobTransition {
            status: String::from_str("failed"),
            stage: String::from_str("解析失败"),
            progress: 100,
            event_type: String::from_str("failed"),
            message,
        }
    }
}

/// A new job: one whose files come in chunks waits for its uploads, any
/// other is queued for the worker.
pub fn created_transition(chunked: bool) -> (r: JobTransition)
    ensures
        chunked ==> transition_is(
            r,
            "uploading"@,
            "准备上传附件"@,
            1,
            "upload_started"@,
            "已建立分片上传任务，开始接收附件"@,
        ),
        !chunked ==> transition_is(r, "queued"@, "等待解析"@, 5, "queued"@, "材料已保存，等待后台整理"@),
{
    if chunked {
        transition("uploading", "准备上传附件", 1, "upload_started", "已建立分片上传任务，开始接收附件")
    } else {
        transition("queued", "等待解析", 5, "queued", "材料已保存，等待后台整理")
    }
}

/// When the last chunk of a chunked job is in: queued for the worker.
pub fn uploads_complete_transition() -> (r: JobTransition)
    ensures
        transition_is(r, "queued"@, "等待解析"@, 8, "upload_completed"@, "附件分片已完整保存，等待后台整理"@),
{
    transition("queued", "等待解析", 8, "upload_completed", "附件分片已完整保存，等待后台整理")
}

/// When a member cancels a job.
pub fn cancel_transition() -> (r: JobTransition)
    ensures
        transition_is(r, "cancelled"@, "已取消"@, 100, "cancelled"@, "成员取消了本次整理任务"@),
{
    transition("cancelled", "已取消", 100, "cancelled", "成员取消了本次整理任务")
}

/// The engine of a draft that Codex wrote.
pub const CODEX_ENGINE: &'static str = "codex_exec";

/// The engine of the local draft kept when a Codex run fails.
pub const FALLBACK_ENGINE: &'static str = "deterministic_fallback";

/// When Codex has written its draft: completed, waiting for the member.
pub fn agent_completed_transition() -> (r: JobTransition)
    ensures
        transition_is(
            r,
            "completed"@,
            "等待确认"@,
            100,
            "agent_completed"@,
            "Codex 已生成结构化项目草稿，等待成员确认"@,
        ),
{
    transition("completed", "等待确认", 100, "agent_completed", "Codex 已生成结构化项目草稿，等待成员确认")
}

/// When a Codex run fails: completed with the local draft; the message says
/// why.
pub fn agent_fallback_transition(message: String) -> (r: JobTransition)
    ensures
        transition_is(r, "completed"@, "Codex 未完成，使用本地草稿"@, 100, "agent_fallback"@, message@),
{
    JobTransition {
        status: String::from_str("completed"),
        stage: String::from_str("Codex 未完成，使用本地草稿"),
        progress: 100,
        event_type: String::from_str("agent_fallback"),
        message,
    }
}

/// A new job, waiting for its uploads or queued (as it is again once its
/// uploads are complete), may still be cancelled; a cancelled job, and one
/// that Codex finished or fell back from, may not.
pub proof fn law_job_lifecycle_ends(chunked: bool, t: JobTransition, u: JobTransition, message: Seq<char>)
    requires
        chunked ==> transition_is(
            t,
            "uploading"@,
            "准备上传附件"@,
            1,
            "upload_started"@,
            "已建立分片上传任务，开始接收附件"@,
        ),
        !chunked ==> transition_is(t, "queued"@, "等待解析"@, 5, "queued"@, "材料已保存，等待后台整理"@),
        transition_is(u, "completed"@, "Codex 未完成，使用本地草稿"@, 100, "agent_fallback"@, message)
            || transition_is(
            u,
            "completed"@,
            "等待确认"@,
            100,
            "agent_completed"@,
            "Codex 已生成结构化项目草稿，等待成员确认"@,
        ) || transition_is(u, "cancelled"@, "已取消"@, 100, "cancelled"@, "成员取消了本次整理任务"@),
    ensures
        !is_terminal(t.status@),
        is_terminal(u.status@),
{
    reveal_strlit("uploading");
    reveal_strlit("queued");
    reveal_strlit("completed");
    reveal_strlit("failed");
    reveal_strlit("cancelled");
    law_end_statuses_are_final(u.status@);
    assert(!is_terminal("queued"@)) by {
        assert forall|k: int| 0 <= k < TERMINAL_STATUSES@.len() implies #[trigger] TERMINAL_STATUSES@[k]@
            != "queued"@ by {
            assert("queued"@[0] == 'q');
        }
    }
    assert(!is_terminal("uploading"@)) by {
        assert forall|k: int| 0 <= k < TERMINAL_STATUSES@.len() implies #[trigger] TERMINAL_STATUSES@[k]@
            != "uploading"@ by {
            assert("uploading"@[0] == 'u');
        }
    }
}

/// Every way a job can end leaves it in an ended status, so it cannot be
/// cancelled afterwards.
pub proof fn law_failures_end_jobs(is_agent_job: bool, t: JobTransition, message: Seq<char>)
    requires
        is_agent_job ==> transition_is(
            t,
            "completed"@,
            "Codex 分析失败，保留本地草稿"@,
            100,
            "agent_fallback"@,
            message,
        ),
        !is_agent_job ==> transition_is(t, "failed"@, "解析失败"@, 100, "failed"@, message),
    ensures
        is_terminal(t.status@),
{
    law_end_statuses_are_final(t.status@);
}

/// The name the draft of a job starts from: the first file's name; without
/// files, the name the text states, or else the job's source name.
pub fn analysis_name(first_upload: Option<String>, prompt: &str, source_name: String) -> (r: String)
    ensures
        r@ == (match opt_view(first_upload) {
            Some(n) => n,
            None => if spec_project_name_hint(prompt@) == "待识别项目"@ {
                source_name@
            } else {
                spec_project_name_hint(prompt@)
            },
        }),
{
    match first_upload {
        Some(n) => n,
        None => {
            let hint = crate::imports::fields::project_name_hint(prompt);
            let h = chars_of(hint.as_str());
            if eq_lit(h.as_slice(), "待识别项目") {
                source_name
            } else {
                hint
            }
        },
    }
}

/// When the agent's run fails: the reason joins the warnings and the local
/// draft stays, marked as the fallback.
pub fn keep_fallback_draft(analysis: &mut ImportAnalysis, message: String)
    ensures
        strings_view(final(analysis).warnings@) == strings_view(old(analysis).warnings@).push(
            message@,
        ),
        final(analysis).project_draft == old(analysis).project_draft,
        final(analysis).artifact_summary == old(analysis).artifact_summary,
        final(analysis).normalized_resources == old(analysis).normalized_resources,
        final(analysis).capabilities == old(analysis).capabilities,
        final(analysis).agent.status@ == "fallback"@,
        final(analysis).agent.mode@ == "deterministic_fallback"@,
        final(analysis).agent.message@ == "Codex 本次未完成，已保留可编辑的本地整理草稿。"@,
{
    let ghost before = analysis.warnings@;
    analysis.warnings.push(message);
    proof {
        assert(strings_view(analysis.warnings@) =~= strings_view(before).push(
            analysis.warnings@[before.len() as int]@,
        ));
    }
    analysis.agent = AgentState {
        status: String::from_str("fallback"),
        mode: String::from_str("deterministic_fallback"),
        message: String::from_str("Codex 本次未完成，已保留可编辑的本地整理草稿。"),
    };
}

// ----------------------------------------------------------------------------
// Messages for members
// ----------------------------------------------------------------------------

/// What a member is told when organising the material failed, by the words
/// of the error.
pub open spec fn spec_worker_error(message: Seq<char>) -> Seq<char> {
    if contains(message, "valid ZIP"@) {
        "文件不是有效的 ZIP 压缩包"@
    } else if contains(message, "unsafe path"@) || contains(message, "symbolic link"@) {
        "压缩包包含不安全路径或符号链接，已停止解析"@
    } else if contains(message, "size limit"@) || contains(message, "oversized"@) {
        "压缩包解压后的体积超过限制"@
    } else if contains(message, "too many entries"@) {
        "压缩包内文件数量超过限制"@
    } else {
        "解析失败，请检查压缩包后重试"@
    }
}

pub fn user_facing_worker_error(message: &str) -> (r: String)
    ensures
        r@ == spec_worker_error(message@),
{
    let m = chars_of(message);
    let c = |p: &str| -> (b: bool)
        ensures
            b == contains(m@, p@),
        { crate::text::contains_lit(m.as_slice(), p) };
    if c("valid ZIP") {
        String::from_str("文件不是有效的 ZIP 压缩包")
    } else if c("unsafe path") || c("symbolic link") {
        String::from_str("压缩包包含不安全路径或符号链接，已停止解析")
    } else if c("size limit") || c("oversized") {
        String::from_str("压缩包解压后的体积超过限制")
    } else if c("too many entries") {
        String::from_str("压缩包内文件数量超过限制")
    } else {
        String::from_str("解析失败，请检查压缩包后重试")
    }
}

/// What a member is told when the agent's run failed, by the words of the
/// error in ASCII lower case.
pub open spec fn spec_agent_error(message: Seq<char>) -> Seq<char> {
    let m = ascii_lowercase(message);
    if contains(m, "timed out"@) {
        "Codex 分析超时，已保留本地整理草稿，可稍后重试。"@
    } else if contains(m, "api key file"@) {
        "Codex 凭据文件不可用，已保留本地整理草稿。"@
    } else if contains(m, "failed to start"@) {
        "Codex 运行程序不可用，已保留本地整理草稿。"@
    } else if contains(m, "structured final output"@) || contains(m, "valid json"@) {
        "Codex 返回的草稿格式不正确，已保留本地整理草稿。"@
    } else {
        "Codex 本次分析未完成，已保留本地整理草稿。"@
    }
}

pub fn user_facing_agent_error(message: &str) -> (r: String)
    ensures
        r@ == spec_agent_error(message@),
{
    let raw = chars_of(message);
    let m = to_ascii_lowercase(raw.as_slice());
    let c = |p: &str| -> (b: bool)
        ensures
            b == contains(m@, p@),
        { crate::text::contains_lit(m.as_slice(), p) };
    if c("timed out") {
        String::from_str("Codex 分析超时，已保留本地整理草稿，可稍后重试。")
    } else if c("api key file") {
        String::from_str("Codex 凭据文件不可用，已保留本地整理草稿。")
    } else if c("failed to start") {
        String::from_str("Codex 运行程序不可用，已保留本地整理草稿。")
    } else if c("structured final output") || c("valid json") {
        String::from_str("Codex 返回的草稿格式不正确，已保留本地整理草稿。")
    } else {
        String::from_str("Codex 本次分析未完成，已保留本地整理草稿。")
    }
}

// ----------------------------------------------------------------------------
// The worker
// ----------------------------------------------------------------------------

/// How an import worker runs: its id, how long it waits between polls (in
/// milliseconds), and how long a claimed job stays leased (in seconds).
#[derive(Clone, Debug)]
pub struct ImportWorkerOptions {
    pub worker_id: String,
    pub poll_interval_ms: u64,
    pub lease_duration_secs: u64,
}

impl ImportWorkerOptions {
    /// A worker with a fresh id, polling at least every 50 ms apart and
    /// leasing jobs for at least 30 seconds.
    pub fn new(poll_ms: u64, lease_secs: u64) -> (r: ImportWorkerOptions)
        ensures
            r.worker_id@.len() == 7 + 36,
            r.worker_id@.subrange(0, 7) == "worker-"@,
            r.poll_interval_ms == (if poll_ms < 50 {
                50
            } else {
                poll_ms
            }),
            r.lease_duration_secs == (if lease_secs < 30 {
                30
            } else {
                lease_secs
            }),
    {
        let mut id = crate::text::lit("worker-");
        let fresh = crate::ids::fresh_id();
        push_str(&mut id, fresh.as_str());
        proof {
            reveal_strlit("worker-");
            assert(id@.subrange(0, 7) =~= "worker-"@);
        }
        ImportWorkerOptions {
            worker_id: string_of(id.as_slice()),
            poll_interval_ms: if poll_ms < 50 {
                50
            } else {
                poll_ms
            },
            lease_duration_secs: if lease_secs < 30 {
                30
            } else {
                lease_secs
            },
        }
    }
}

/// How often a worker renews the lease of its job: every third of the lease,
/// but not more often than every 10 seconds.
pub fn heartbeat_interval_secs(lease_secs: u64) -> (r: u64)
    ensures
        r == (if lease_secs / 3 < 10 {
            10
        } else {
            lease_secs / 3
        }),
{
    let third = lease_secs / 3;
    if third < 10 {
        10
    } else {
        third
    }
}

// ----------------------------------------------------------------------------
// Chunked uploads
// ----------------------------------------------------------------------------

/// The progress of an upload, from 1 to 8 percent: 8 once nothing is left.
pub open spec fn spec_upload_progress(received: u64, total: u64) -> i64 {
    if total == 0 {
        8
    } else {
        let scaled = if received * 7 > u64::MAX {
            u64::MAX as int
        } else {
            received * 7
        };
        let p = 1 + scaled / (total as int);
        if p > 8 {
            8
        } else {
            p as i64
        }
    }
}

pub fn upload_progress(received_bytes: u64, total_bytes: u64) -> (r: i64)
    ensures
        r == spec_upload_progress(received_bytes, total_bytes),
        1 <= r <= 8,
{
    if total_bytes == 0 {
        return 8;
    }
    let scaled: u64 = match received_bytes.checked_mul(7) {
        Some(v) => v,
        None => u64::MAX,
    };
    let q = scaled / total_bytes;
    if q >= 7 {
        8
    } else {
        (1 + q) as i64
    }
}

/// More bytes received never show less progress.
pub proof fn law_upload_progress_monotone(a: u64, b: u64, total: u64)
    requires
        a <= b,
    ensures
        spec_upload_progress(a, total) <= spec_upload_progress(b, total),
{
    if total > 0 {
        let sa: int = if a * 7 > u64::MAX {
            u64::MAX as int
        } else {
            a * 7
        };
        let sb: int = if b * 7 > u64::MAX {
            u64::MAX as int
        } else {
            b * 7
        };
        assert(a * 7 <= b * 7) by (nonlinear_arith)
            requires
                a <= b,
        ;
        assert(sa <= sb);
        assert(sa / (total as int) <= sb / (total as int)) by (nonlinear_arith)
            requires
                0 <= sa <= sb,
                total > 0,
        ;
    }
}

/// What to do with a chunk at an offset.
#[derive(Clone, Copy, Debug, PartialEq, Eq, Structural)]
pub enum ChunkAction {
    /// Append it: it starts where the stored bytes end.
    Append,
    /// It ends where the stored bytes end: check it against what is stored.
    Verify,
}

/// A chunk has 1 byte to 4 MiB.
pub fn check_chunk_size(len: usize) -> (r: Result<(), AppError>)
    ensures
        r is Ok <==> (0 < len && len <= crate::imports::requests::IMPORT_CHUNK_SIZE_BYTES),
        r matches Err(e) ==> (e matches AppError::BadRequest(m) && m@ == "单个分片必须在 1 字节到 4 MB 之间"@),
{
    if len == 0 || len > crate::imports::requests::IMPORT_CHUNK_SIZE_BYTES {
        Err(AppError::BadRequest(String::from_str("单个分片必须在 1 字节到 4 MB 之间")))
    } else {
        Ok(())
    }
}

/// The text after an optional leading `+`.
pub open spec fn unsigned_digits(s: Seq<char>) -> Seq<char> {
    if s.len() > 0 && s[0] == '+' {
        s.subrange(1, s.len() as int)
    } else {
        s
    }
}

pub open spec fn all_digits(d: Seq<char>) -> bool {
    forall|i: int| 0 <= i < d.len() ==> crate::text::is_ascii_digit(#[trigger] d[i])
}

/// `str::parse::<u64>`: an optional `+` and one or more ASCII digits, of a
/// value that fits.
pub open spec fn spec_parse_u64(s: Seq<char>) -> Option<u64> {
    let digits = unsigned_digits(s);
    if digits.len() > 0 && all_digits(digits) && crate::imports::extractors::decimal_value(digits)
        <= u64::MAX {
        Some(crate::imports::extractors::decimal_value(digits) as u64)
    } else {
        None
    }
}

pub fn parse_u64(s: &str) -> (r: Option<u64>)
    ensures
        r == spec_parse_u64(s@),
{
    let c = chars_of(s);
    let start: usize = if c.len() > 0 && c[0] == '+' {
        1
    } else {
        0
    };
    let digits = crate::text::slice_chars(c.as_slice(), start, c.len());
    proof {
        if start == 0 {
            assert(c@.subrange(0, c@.len() as int) =~= c@);
        }
    }
    if digits.len() == 0 {
        return None;
    }
    let mut value: u64 = 0;
    let mut i: usize = 0;
    proof {
        assert(digits@.subrange(0, 0) =~= Seq::<char>::empty());
    }
    while i < digits.len()
        invariant
            0 <= i <= digits@.len(),
            digits@ == unsigned_digits(s@),
            forall|j: int| 0 <= j < i ==> crate::text::is_ascii_digit(#[trigger] digits@[j]),
            value == crate::imports::extractors::decimal_value(digits@.subrange(0, i as int)),
        decreases digits.len() - i,
    {
        let d = digits[i];
        if !('0' <= d && d <= '9') {
            proof {
                assert(!crate::text::is_ascii_digit(digits@[i as int]));
                assert(!all_digits(digits@));
                assert(spec_parse_u64(s@) is None);
            }
            return None;
        }
        let dv: u64 = (d as u32 - '0' as u32) as u64;
        proof {
            let next = digits@.subrange(0, i + 1);
            assert(next.drop_last() =~= digits@.subrange(0, i as int));
            assert(next.last() == d);
        }
        if value > (u64::MAX - dv) / 10 {
            proof {
                let next = digits@.subrange(0, i + 1);
                assert(crate::imports::extractors::decimal_value(next) == value * 10 + dv);
                assert(value * 10 + dv > u64::MAX);
                lemma_decimal_grows(digits@, i + 1);
                if exists|j: int| i + 1 <= j < digits@.len() && !crate::text::is_ascii_digit(#[trigger] digits@[j]) {
                    let j = choose|j: int| i + 1 <= j < digits@.len() && !crate::text::is_ascii_digit(#[trigger] digits@[j]);
                    assert(!crate::text::is_ascii_digit(digits@[j]));
                    assert(!all_digits(digits@));
                } else {
                    assert(crate::imports::extractors::decimal_value(digits@) > u64::MAX);
                }
                assert(spec_parse_u64(s@) is None);
            }
            return None;
        }
        value = value * 10 + dv;
        i += 1;
    }
    proof {
        assert(digits@.subrange(0, digits@.len() as int) =~= digits@);
    }
    Some(value)
}

proof fn lemma_decimal_grows(d: Seq<char>, i: int)
    requires
        0 <= i <= d.len(),
        forall|j: int| 0 <= j < i ==> crate::text::is_ascii_digit(#[trigger] d[j]),
    ensures
        crate::imports::extractors::decimal_value(d.subrange(0, i))
            <= crate::imports::extractors::decimal_value(d) || exists|j: int|
            i <= j < d.len() && !crate::text::is_ascii_digit(#[trigger] d[j]),
    decreases d.len() - i,
{
    if i < d.len() {
        if crate::text::is_ascii_digit(d[i]) {
            lemma_decimal_grows(d, i + 1);
            let next = d.subrange(0, i + 1);
            assert(next.drop_last() =~= d.subrange(0, i));
        }
    } else {
        assert(d.subrange(0, i) =~= d);
    }
}

/// A chunk's place in its file, decided from the stored upload and the bytes
/// on disk: appended where it starts at the end, checked where it ends at the
/// end; anything else is refused. The result is the action and the size the
/// file has after it; a refusal says whether it is a conflict, and why.
pub open spec fn chunk_plan(
    job_status: Seq<char>,
    declared_size: i64,
    relative_path: Seq<char>,
    offset: u64,
    chunk_len: u64,
    current_size: u64,
) -> Result<(ChunkAction, u64), (bool, Seq<char>)> {
    let expected: int = if declared_size < 0 {
        0
    } else {
        declared_size as int
    };
    if job_status != "uploading"@ {
        Err((true, "该任务当前不接受附件分片"@))
    } else if !normal_relative(relative_path) {
        Err((false, "附件存储路径不安全"@))
    } else if offset + chunk_len > u64::MAX {
        Err((false, "上传偏移量无效"@))
    } else if offset + chunk_len > expected {
        Err((false, "分片超过附件声明大小"@))
    } else if offset == current_size {
        Ok((ChunkAction::Append, (offset + chunk_len) as u64))
    } else if offset + chunk_len == current_size {
        Ok((ChunkAction::Verify, (offset + chunk_len) as u64))
    } else {
        Err((true, "上传偏移量不连续，服务器当前已接收 "@ + decimal(current_size as nat) + " 字节"@))
    }
}

/// Decides a chunk (see `chunk_plan`).
pub fn plan_chunk(
    job_status: &str,
    declared_size: i64,
    relative_path: &str,
    offset: u64,
    chunk_len: u64,
    current_size: u64,
) -> (r: Result<(ChunkAction, u64), AppError>)
    ensures
        match chunk_plan(job_status@, declared_size, relative_path@, offset, chunk_len, current_size) {
            Ok(p) => r == Ok::<(ChunkAction, u64), AppError>(p),
            Err((conflict, m)) => r matches Err(e) && if conflict {
                e matches AppError::Conflict(t) && t@ == m
            } else {
                e matches AppError::BadRequest(t) && t@ == m
            },
        },
{
    let s = chars_of(job_status);
    if !eq_lit(s.as_slice(), "uploading") {
        return Err(AppError::Conflict(String::from_str("该任务当前不接受附件分片")));
    }
    let expected: u64 = if declared_size < 0 {
        0
    } else {
        declared_size as u64
    };
    if !is_normal_relative_path(relative_path) {
        return Err(AppError::BadRequest(String::from_str("附件存储路径不安全")));
    }
    let next = match offset.checked_add(chunk_len) {
        Some(n) => n,
        None => {
            return Err(AppError::BadRequest(String::from_str("上传偏移量无效")));
        },
    };
    if next > expected {
        return Err(AppError::BadRequest(String::from_str("分片超过附件声明大小")));
    }
    if offset == current_size {
        Ok((ChunkAction::Append, next))
    } else if next == current_size {
        Ok((ChunkAction::Verify, next))
    } else {
        let mut m = crate::text::lit("上传偏移量不连续，服务器当前已接收 ");
        push_decimal(&mut m, current_size);
        push_str(&mut m, " 字节");
        Err(AppError::Conflict(string_of(m.as_slice())))
    }
}

/// A chunk sent again after it was written is checked, not written twice:
/// where a chunk was appended, the same chunk at the same offset afterwards
/// is verified against the stored bytes.
pub proof fn law_resent_chunk_is_verified(
    job_status: Seq<char>,
    declared_size: i64,
    relative_path: Seq<char>,
    offset: u64,
    chunk_len: u64,
    current_size: u64,
    next: u64,
)
    requires
        chunk_len > 0,
        chunk_plan(job_status, declared_size, relative_path, offset, chunk_len, current_size) == Ok::<
            (ChunkAction, u64),
            (bool, Seq<char>),
        >((ChunkAction::Append, next)),
    ensures
        chunk_plan(job_status, declared_size, relative_path, offset, chunk_len, next) == Ok::<
            (ChunkAction, u64),
            (bool, Seq<char>),
        >((ChunkAction::Verify, next)),
{
}

/// A chunk is never written past the size its file was announced with.
pub proof fn law_chunks_stay_within_declared_size(
    job_status: Seq<char>,
    declared_size: i64,
    relative_path: Seq<char>,
    offset: u64,
    chunk_len: u64,
    current_size: u64,
    action: ChunkAction,
    next: u64,
)
    requires
        chunk_plan(job_status, declared_size, relative_path, offset, chunk_len, current_size) == Ok::<
            (ChunkAction, u64),
            (bool, Seq<char>),
        >((action, next)),
    ensures
        next as int <= (if declared_size < 0 {
            0
        } else {
            declared_size as int
        }),
        next == offset + chunk_len,
        action == ChunkAction::Append ==> offset == current_size,
        action == ChunkAction::Verify ==> next == current_size,
{
}

/// A chunk sent again must hold the same bytes as those stored.
pub fn check_resent_chunk(previous: &[u8], body: &[u8]) -> (r: Result<(), AppError>)
    ensures
        r is Ok <==> previous@ == body@,
        r matches Err(e) ==> (e matches AppError::Conflict(m) && m@ == "该上传偏移量已经写入不同内容"@),
{
    let same = if previous.len() != body.len() {
        false
    } else {
        let mut i: usize = 0;
        let mut eq = true;
        while i < previous.len()
            invariant
                0 <= i <= previous@.len(),
                previous@.len() == body@.len(),
                eq == forall|j: int| 0 <= j < i ==> previous@[j] == body@[j],
            decreases previous.len() - i,
        {
            if previous[i] != body[i] {
                eq = false;
            }
            i += 1;
        }
        proof {
            if eq {
                assert(previous@ =~= body@);
            }
        }
        eq
    };
    if same {
        Ok(())
    } else {
        Err(AppError::Conflict(String::from_str("该上传偏移量已经写入不同内容")))
    }
}

/// An upload is `uploaded` once all its announced bytes are in.
pub fn upload_status(next_size: u64, declared_size: i64) -> (r: &'static str)
    ensures
        r@ == (if next_size as int == (if declared_size < 0 {
            0
        } else {
            declared_size as int
        }) {
            "uploaded"@
        } else {
            "uploading"@
        }),
{
    let expected: u64 = if declared_size < 0 {
        0
    } else {
        declared_size as u64
    };
    if next_size == expected {
        "uploaded"
    } else {
        "uploading"
    }
}

/// The stage shown while a file uploads.
pub fn upload_stage(display_name: &str) -> (r: String)
    ensures
        r@ == "正在上传："@ + display_name@,
{
    let mut m = crate::text::lit("正在上传：");
    push_str(&mut m, display_name);
    string_of(m.as_slice())
}

/// Whether completing a chunked upload goes ahead: only while uploading; a
/// cancelled upload is refused, any other status is already past it.
pub fn completion_allowed(status: &str) -> (r: Result<bool, AppError>)
    ensures
        status@ == "uploading"@ ==> r == Ok::<bool, AppError>(true),
        status@ == "cancelled"@ ==> (r matches Err(e) && (e matches AppError::Conflict(m) && m@
            == "该上传任务已取消"@)),
        status@ != "uploading"@ && status@ != "cancelled"@ ==> r == Ok::<bool, AppError>(false),
{
    let s = chars_of(status);
    proof {
        reveal_strlit("uploading");
        reveal_strlit("cancelled");
        assert("uploading"@[0] != "cancelled"@[0]);
        assert("uploading"@ != "cancelled"@);
    }
    if eq_lit(s.as_slice(), "uploading") {
        Ok(true)
    } else if eq_lit(s.as_slice(), "cancelled") {
        Err(AppError::Conflict(String::from_str("该上传任务已取消")))
    } else {
        Ok(false)
    }
}

/// A chunked upload must have files.
pub fn check_has_files(count: usize) -> (r: Result<(), AppError>)
    ensures
        r is Ok <==> count > 0,
        r matches Err(e) ==> (e matches AppError::BadRequest(m) && m@ == "上传任务没有附件"@),
{
    if count == 0 {
        Err(AppError::BadRequest(String::from_str("上传任务没有附件")))
    } else {
        Ok(())
    }
}

/// A stored upload is complete when its file holds all announced bytes.
pub fn check_upload_complete(
    display_name: &str,
    relative_path: &str,
    actual_size: u64,
    declared_size: i64,
) -> (r: Result<(), AppError>)
    ensures
        !normal_relative(relative_path@) ==> (r matches Err(e) && (e matches AppError::BadRequest(m)
            && m@ == "附件存储路径不安全"@)),
        normal_relative(relative_path@) ==> (r is Ok <==> actual_size as int == (if declared_size < 0 {
            0
        } else {
            declared_size as int
        })),
        normal_relative(relative_path@) && r is Err ==> (r matches Err(e) && (e matches AppError::Conflict(
            m,
        ) && m@ == "附件 "@ + display_name@ + " 尚未上传完成（"@ + decimal(actual_size as nat) + "/"@
            + decimal(
            (if declared_size < 0 {
                0
            } else {
                declared_size as int
            }) as nat,
        ) + " 字节）"@)),
{
    if !is_normal_relative_path(relative_path) {
        return Err(AppError::BadRequest(String::from_str("附件存储路径不安全")));
    }
    let expected: u64 = if declared_size < 0 {
        0
    } else {
        declared_size as u64
    };
    if actual_size != expected {
        let mut m = crate::text::lit("附件 ");
        push_str(&mut m, display_name);
        push_str(&mut m, " 尚未上传完成（");
        push_decimal(&mut m, actual_size);
        push_str(&mut m, "/");
        push_decimal(&mut m, expected);
        push_str(&mut m, " 字节）");
        return Err(AppError::Conflict(string_of(m.as_slice())));
    }
    Ok(())
}

} // verus!
