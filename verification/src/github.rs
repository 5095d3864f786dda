//! Publishing the source code of an import to a private GitHub repository:
//! the publisher's configuration, repository names, what may be published,
//! and what members are told.

use vstd::prelude::*;

use crate::auth::FeiyueIdentity;
use crate::error::AppError;
use crate::imports::names::{byte_prefix, on_boundary, spec_is_zip_path};
use crate::paths::{extension, file_name, normal_relative, is_normal_relative_path, path_extension, path_file_name};
use crate::projects::opt_view;
use crate::text::{
    ascii_lowercase, chars_of, contains, decimal, ends_with, eq_lit, is_ascii_alnum, is_one_of,
    one_of, push_all, push_decimal, push_str, replace_all, replace_chars, starts_with, string_of,
    take, take_chars, to_ascii_lowercase, trim, trim_chars, utf8_len, utf8_len_of, is_white_space,
};

verus! {

/// The longest repository name.
pub const MAX_REPO_NAME_CHARS: usize = 100;

/// How the publisher is set up. Paths are texts; the time limit is in seconds.
#[derive(Clone, Debug)]
pub struct GitHubPublishConfig {
    pub enabled: bool,
    pub owner: Option<String>,
    pub repo_prefix: String,
    pub token_file: Option<String>,
    pub gh_bin: String,
    pub git_bin: String,
    pub runtime_root: String,
    pub timeout_secs: u64,
}

/// Publishes with the GitHub and git command line tools.
#[derive(Clone, Debug)]
pub struct GhCliPublisher {
    pub config: GitHubPublishConfig,
}

/// Why a publisher cannot be set up.
#[derive(Clone, Copy, Debug, PartialEq, Eq, Structural)]
pub enum PublishConfigError {
    MissingOwner,
    InvalidOwner,
    MissingTokenFile,
}

impl PublishConfigError {
    pub open spec fn spec_message(&self) -> &'static str {
        match self {
            PublishConfigError::MissingOwner => "GitHub owner is missing",
            PublishConfigError::InvalidOwner => "GitHub owner contains unsupported characters",
            PublishConfigError::MissingTokenFile => "GitHub token file is missing",
        }
    }

    pub fn message(&self) -> (r: &'static str)
        ensures
            r == self.spec_message(),
    {
        match self {
            PublishConfigError::MissingOwner => "GitHub owner is missing",
            PublishConfigError::InvalidOwner => "GitHub owner contains unsupported characters",
            PublishConfigError::MissingTokenFile => "GitHub token file is missing",
        }
    }
}

/// A GitHub owner: 1 to 100 ASCII letters, digits and hyphens.
pub open spec fn spec_valid_owner(owner: Seq<char>) -> bool {
    &&& owner.len() > 0
    &&& utf8_len(owner) <= 100
    &&& forall|i: int| 0 <= i < owner.len() ==> is_ascii_alnum(#[trigger] owner[i]) || owner[i] == '-'
}

pub fn valid_owner(owner: &str) -> (r: bool)
    ensures
        r == spec_valid_owner(owner@),
{
    let o = chars_of(owner);
    if o.len() == 0 || utf8_len_of(o.as_slice()) > 100 {
        return false;
    }
    let mut i: usize = 0;
    while i < o.len()
        invariant
            0 <= i <= o@.len(),
            o@ == owner@,
            forall|j: int| 0 <= j < i ==> is_ascii_alnum(#[trigger] o@[j]) || o@[j] == '-',
        decreases o.len() - i,
    {
        let c = o[i];
        if !(('a' <= c && c <= 'z') || ('A' <= c && c <= 'Z') || ('0' <= c && c <= '9') || c == '-') {
            assert(!(is_ascii_alnum(o@[i as int]) || o@[i as int] == '-'));
            return false;
        }
        i += 1;
    }
    true
}

/// Why an enabled publisher cannot work, if it cannot.
pub open spec fn publish_config_failure(config: GitHubPublishConfig) -> Option<PublishConfigError> {
    if !config.enabled {
        None
    } else if config.owner is None {
        Some(PublishConfigError::MissingOwner)
    } else if !spec_valid_owner(config.owner->0@) {
        Some(PublishConfigError::InvalidOwner)
    } else if config.token_file is None {
        Some(PublishConfigError::MissingTokenFile)
    } else {
        None
    }
}

impl GhCliPublisher {
    /// A publisher for a configuration; an enabled one needs a valid owner
    /// and a token file.
    pub fn new(config: GitHubPublishConfig) -> (r: Result<GhCliPublisher, PublishConfigError>)
        ensures
            match publish_config_failure(config) {
                Some(e) => r == Err::<GhCliPublisher, PublishConfigError>(e),
                None => r matches Ok(p) && p.config == config,
            },
    {
        if config.enabled {
            match &config.owner {
                None => {
                    return Err(PublishConfigError::MissingOwner);
                },
                Some(o) => {
                    if !valid_owner(o.as_str()) {
                        return Err(PublishConfigError::InvalidOwner);
                    }
                },
            }
            if config.token_file.is_none() {
                return Err(PublishConfigError::MissingTokenFile);
            }
        }
        Ok(GhCliPublisher { config })
    }

    /// A publisher that is switched off.
    pub fn disabled() -> (r: GhCliPublisher)
        ensures
            !r.config.enabled,
            r.config.owner is None,
            r.config.repo_prefix@ == "ict"@,
            r.config.token_file is None,
            r.config.gh_bin@ == "gh"@,
            r.config.git_bin@ == "git"@,
            r.config.runtime_root@ == "data/github-runs"@,
            r.config.timeout_secs == 900,
    {
        GhCliPublisher {
            config: GitHubPublishConfig {
                enabled: false,
                owner: None,
                repo_prefix: String::from_str("ict"),
                token_file: None,
                gh_bin: String::from_str("gh"),
                git_bin: String::from_str("git"),
                runtime_root: String::from_str("data/github-runs"),
                timeout_secs: 900,
            },
        }
    }

    pub fn enabled(&self) -> (r: bool)
        ensures
            r == self.config.enabled,
    {
        self.config.enabled
    }

    pub fn owner(&self) -> (r: Option<String>)
        ensures
            opt_view(r) == opt_view(self.config.owner),
    {
        self.config.owner.clone()
    }

    pub fn repo_prefix(&self) -> (r: String)
        ensures
            r@ == self.config.repo_prefix@,
    {
        self.config.repo_prefix.clone()
    }
}

// ----------------------------------------------------------------------------
// The token
// ----------------------------------------------------------------------------

/// Why the token file's text is refused: a token is one word, after trimming.
pub fn token_from_file(contents: &str) -> (r: Result<String, &'static str>)
    ensures
        match r {
            Ok(t) => t@ == trim(contents@) && trim(contents@).len() > 0 && forall|i: int|
                0 <= i < trim(contents@).len() ==> !is_white_space(#[trigger] trim(contents@)[i]),
            Err(m) => m@ == "GitHub token file must contain one non-empty token"@ && (trim(
                contents@,
            ).len() == 0 || exists|i: int|
                0 <= i < trim(contents@).len() && is_white_space(#[trigger] trim(contents@)[i])),
        },
{
    let c = chars_of(contents);
    let t = trim_chars(c.as_slice());
    if t.len() == 0 {
        return Err("GitHub token file must contain one non-empty token");
    }
    let mut i: usize = 0;
    while i < t.len()
        invariant
            0 <= i <= t@.len(),
            t@ == trim(contents@),
            forall|j: int| 0 <= j < i ==> !is_white_space(#[trigger] t@[j]),
        decreases t.len() - i,
    {
        if crate::text::white_space(t[i]) {
            return Err("GitHub token file must contain one non-empty token");
        }
        i += 1;
    }
    Ok(string_of(t.as_slice()))
}

/// A token file may be read by its owner only: no permission bit for the
/// group or others (mode `0600` or stricter).
pub fn token_file_mode_ok(mode: u32) -> (r: bool)
    ensures
        r == (mode & 0o077 == 0),
{
    mode & 0o077 == 0
}

// ----------------------------------------------------------------------------
// Command errors
// ----------------------------------------------------------------------------

/// What `String::from_utf8_lossy` makes of bytes.
pub uninterp spec fn utf8_lossy(bytes: Seq<u8>) -> Seq<char>;

/// Calls `String::from_utf8_lossy`. On valid UTF-8 the text is what the
/// bytes encode; where replacement characters go otherwise is only named.
#[verifier::external_body]
fn lossy_text(bytes: &[u8]) -> (r: String)
    ensures
        r@ == utf8_lossy(bytes@),
        vstd::utf8::valid_utf8(bytes@) ==> r@ == vstd::utf8::decode_utf8(bytes@),
{
    String::from_utf8_lossy(bytes).into_owned()
}

/// What a failed command reports: its error output, trimmed, with the token
/// (where there is one) replaced by `[redacted]`, at most 2000 characters;
/// `no stderr output` where nothing is left.
pub open spec fn spec_command_error_detail(stderr: Seq<u8>, token: Option<Seq<char>>) -> Seq<char> {
    let detail = trim(utf8_lossy(stderr));
    let redacted = match token {
        Some(t) => if t.len() > 0 {
            replace_all(detail, t, "[redacted]"@)
        } else {
            detail
        },
        None => detail,
    };
    if redacted.len() == 0 {
        "no stderr output"@
    } else {
        take(redacted, 2000)
    }
}

pub fn command_error_detail(stderr: &[u8], token: Option<&str>) -> (r: String)
    ensures
        r@ == spec_command_error_detail(
            stderr@,
            match token {
                Some(t) => Some(t@),
                None => None,
            },
        ),
{
    let raw = lossy_text(stderr);
    let rc = chars_of(raw.as_str());
    let mut detail = trim_chars(rc.as_slice());
    match token {
        Some(t) => {
            let tc = chars_of(t);
            if tc.len() > 0 {
                let redacted = crate::text::lit("[redacted]");
                proof {
                    reveal_strlit("[redacted]");
                }
                detail = replace_chars(detail.as_slice(), tc.as_slice(), redacted.as_slice());
            }
        },
        None => {},
    }
    if detail.len() == 0 {
        return String::from_str("no stderr output");
    }
    let taken = take_chars(detail.as_slice(), 2000);
    string_of(taken.as_slice())
}

/// What a member is told when publishing failed, by the words of the error.
pub open spec fn spec_publish_error(message: Seq<char>) -> Seq<char> {
    if contains(message, "secret-like"@) {
        "发布已停止："@ + message
    } else if contains(message, "symbolic link"@) {
        "发布已停止：源码中包含符号链接，请人工确认后重试。"@
    } else if contains(message, "100 MiB"@) {
        "发布已停止："@ + message
    } else if contains(message, "token file"@) {
        "GitHub 凭据文件不可用，请管理员检查配置。"@
    } else if contains(message, "failed to start gh repo create"@) {
        "服务器尚未安装或无法启动 GitHub CLI。"@
    } else if contains(message, "gh repo create failed"@) {
        "GitHub 未能创建或推送私有仓库，请检查账号权限、组织授权和仓库名。"@
    } else if contains(message, "belongs to another source"@) {
        "自动编号对应的仓库名已被其他项目占用，请管理员核对组织仓库后重试。"@
    } else if contains(message, "source directory"@) || contains(message, "source reference"@) {
        "未找到安全、完整的源码目录，请在材料中补充源码包后重试。"@
    } else {
        "私有源码仓库发布失败，请管理员查看 Worker 日志后重试。"@
    }
}

pub fn user_facing_publish_error(message: &str) -> (r: String)
    ensures
        r@ == spec_publish_error(message@),
{
    let m = chars_of(message);
    let c = |p: &str| -> (b: bool)
        ensures
            b == contains(m@, p@),
        { crate::text::contains_lit(m.as_slice(), p) };
    if c("secret-like") || (!c("symbolic link") && c("100 MiB")) {
        let mut out = crate::text::lit("发布已停止：");
        push_str(&mut out, message);
        string_of(out.as_slice())
    } else if c("symbolic link") {
        String::from_str("发布已停止：源码中包含符号链接，请人工确认后重试。")
    } else if c("token file") {
        String::from_str("GitHub 凭据文件不可用，请管理员检查配置。")
    } else if c("failed to start gh repo create") {
        String::from_str("服务器尚未安装或无法启动 GitHub CLI。")
    } else if c("gh repo create failed") {
        String::from_str("GitHub 未能创建或推送私有仓库，请检查账号权限、组织授权和仓库名。")
    } else if c("belongs to another source") {
        String::from_str("自动编号对应的仓库名已被其他项目占用，请管理员核对组织仓库后重试。")
    } else if c("source directory") || c("source reference") {
        String::from_str("未找到安全、完整的源码目录，请在材料中补充源码包后重试。")
    } else {
        String::from_str("私有源码仓库发布失败，请管理员查看 Worker 日志后重试。")
    }
}

// ----------------------------------------------------------------------------
// Repository names
// ----------------------------------------------------------------------------

/// `n` zeros.
pub open spec fn zeros(n: int) -> Seq<char> {
    Seq::new(if n > 0 {
        n as nat
    } else {
        0nat
    }, |i: int| '0')
}

/// `format!("{:04}", n)`: at least four characters, zeros after the sign.
pub open spec fn padded4(n: i64) -> Seq<char> {
    if n >= 0 {
        zeros(4 - decimal(n as nat).len()) + decimal(n as nat)
    } else {
        "-"@ + zeros(3 - decimal((-(n as int)) as nat).len()) + decimal((-(n as int)) as nat)
    }
}

/// The name of a published repository: `<prefix>-<number>-<slug>`, the
/// number of at least four digits, at most 100 characters.
pub open spec fn spec_numbered_repo_name(prefix: Seq<char>, number: i64, slug: Seq<char>) -> Seq<char> {
    take(prefix + "-"@ + padded4(number) + "-"@ + slug, 100)
}

fn push_zeros(out: &mut Vec<char>, n: usize)
    ensures
        final(out)@ == old(out)@ + zeros(n as int),
{
    let mut i: usize = 0;
    while i < n
        invariant
            0 <= i <= n,
            out@ == old(out)@ + zeros(i as int),
        decreases n - i,
    {
        out.push('0');
        proof {
            assert(zeros(i + 1) =~= zeros(i as int).push('0'));
        }
        i += 1;
    }
}

pub fn numbered_repo_name(prefix: &str, number: i64, project_slug: &str) -> (r: String)
    ensures
        r@ == spec_numbered_repo_name(prefix@, number, project_slug@),
{
    let mut out = chars_of(prefix);
    push_str(&mut out, "-");
    let magnitude: u64 = if number >= 0 {
        number as u64
    } else {
        ((-(number + 1)) as u64) + 1
    };
    let mut digits: Vec<char> = Vec::new();
    push_decimal(&mut digits, magnitude);
    proof {
        assert(digits@ =~= decimal(magnitude as nat));
    }
    if number < 0 {
        out.push('-');
        let pad: usize = if digits.len() < 3 {
            3 - digits.len()
        } else {
            0
        };
        push_zeros(&mut out, pad);
    } else {
        let pad: usize = if digits.len() < 4 {
            4 - digits.len()
        } else {
            0
        };
        push_zeros(&mut out, pad);
    }
    push_all(&mut out, digits.as_slice());
    push_str(&mut out, "-");
    push_str(&mut out, project_slug);
    proof {
        reveal_strlit("-");
        assert(out@ =~= prefix@ + "-"@ + padded4(number) + "-"@ + project_slug@);
    }
    let taken = take_chars(out.as_slice(), MAX_REPO_NAME_CHARS);
    string_of(taken.as_slice())
}

/// `<owner>/<repo>`.
pub fn full_repo_name(owner: &str, repo_name: &str) -> (r: String)
    ensures
        r@ == owner@ + "/"@ + repo_name@,
{
    let mut out = chars_of(owner);
    push_str(&mut out, "/");
    push_str(&mut out, repo_name);
    string_of(out.as_slice())
}

/// The remote that a repository is pushed to.
pub fn remote_url(full_name: &str) -> (r: String)
    ensures
        r@ == "https://github.com/"@ + full_name@ + ".git"@,
{
    let mut out = crate::text::lit("https://github.com/");
    push_str(&mut out, full_name);
    push_str(&mut out, ".git");
    string_of(out.as_slice())
}

/// The address of a repository where GitHub gives none.
pub fn repo_url(full_name: &str) -> (r: String)
    ensures
        r@ == "https://github.com/"@ + full_name@,
{
    let mut out = crate::text::lit("https://github.com/");
    push_str(&mut out, full_name);
    string_of(out.as_slice())
}

/// The description a published repository carries: it ties the repository
/// to its import job.
pub fn repo_description(job_id: &str) -> (r: String)
    ensures
        r@ == "ICTHub import job "@ + job_id@,
{
    let mut out = crate::text::lit("ICTHub import job ");
    push_str(&mut out, job_id);
    string_of(out.as_slice())
}

/// What to do where a repository of the name already exists.
#[derive(Clone, Copy, Debug, PartialEq, Eq, Structural)]
pub enum ExistingRepoAction {
    /// It is this job's private repository and still empty: push to it.
    PushToEmpty,
    /// It is this job's private repository with content: keep its head.
    KeepRemoteHead,
    /// It belongs to something else.
    Refuse,
}

/// A repository of the name is this job's where its description names the
/// job and it is private.
pub fn existing_repo_action(same_job: bool, is_private: bool, default_branch: Option<String>) -> (r:
    ExistingRepoAction)
    ensures
        r == (if same_job && is_private {
            if repository_is_empty_spec(opt_view(default_branch)) {
                ExistingRepoAction::PushToEmpty
            } else {
                ExistingRepoAction::KeepRemoteHead
            }
        } else {
            ExistingRepoAction::Refuse
        }),
{
    if same_job && is_private {
        if repository_is_empty(&default_branch) {
            ExistingRepoAction::PushToEmpty
        } else {
            ExistingRepoAction::KeepRemoteHead
        }
    } else {
        ExistingRepoAction::Refuse
    }
}

/// A repository without a default branch name has no commits yet.
pub open spec fn repository_is_empty_spec(default_branch: Option<Seq<char>>) -> bool {
    match default_branch {
        Some(b) => b.len() == 0,
        None => true,
    }
}

pub fn repository_is_empty(default_branch: &Option<String>) -> (r: bool)
    ensures
        r == repository_is_empty_spec(opt_view(*default_branch)),
{
    match default_branch {
        Some(b) => b.as_str().is_empty(),
        None => true,
    }
}

// ----------------------------------------------------------------------------
// Queueing a publication
// ----------------------------------------------------------------------------

/// Checks a publication request for a job after the caller's membership: the
/// job's creator or a super administrator, a completed job, a configured
/// publisher with an owner, and a source directory that the draft names.
/// The result is the owner and the source reference.
pub fn check_publication(
    identity: &FeiyueIdentity,
    created_by_sid: &str,
    status: &str,
    publisher_enabled: bool,
    owner: Option<String>,
    source_ref: Option<String>,
) -> (r: Result<(String, String), AppError>)
    ensures
        created_by_sid@ != identity.sid@ && !identity.spec_is_superadmin() ==> (r matches Err(e) && e is Forbidden),
        !(created_by_sid@ != identity.sid@ && !identity.spec_is_superadmin()) ==> (
        if status@ != "completed"@ {
            r matches Err(e) && (e matches AppError::Conflict(m) && m@ == "请等待 Codex 整理完成后再创建源码仓库"@)
        } else if !publisher_enabled {
            r matches Err(e) && (e matches AppError::Conflict(m) && m@ == "GitHub 私有仓库发布尚未配置"@)
        } else if owner is None {
            r matches Err(e) && (e matches AppError::Conflict(m) && m@ == "GitHub 组织尚未配置"@)
        } else if source_ref is None {
            r matches Err(e) && (e matches AppError::Conflict(m) && m@ == "Codex 尚未识别出可发布的源码目录"@)
        } else {
            r matches Ok((o, s)) && o@ == owner->0@ && s@ == source_ref->0@
        }),
{
    let a = chars_of(created_by_sid);
    let b = chars_of(identity.sid.as_str());
    if !crate::text::chars_eq(a.as_slice(), b.as_slice()) && !identity.is_superadmin() {
        return Err(AppError::Forbidden);
    }
    let s = chars_of(status);
    if !eq_lit(s.as_slice(), "completed") {
        return Err(AppError::Conflict(String::from_str("请等待 Codex 整理完成后再创建源码仓库")));
    }
    if !publisher_enabled {
        return Err(AppError::Conflict(String::from_str("GitHub 私有仓库发布尚未配置")));
    }
    let o = match owner {
        Some(o) => o,
        None => {
            return Err(AppError::Conflict(String::from_str("GitHub 组织尚未配置")));
        },
    };
    let sr = match source_ref {
        Some(x) => x,
        None => {
            return Err(AppError::Conflict(String::from_str("Codex 尚未识别出可发布的源码目录")));
        },
    };
    Ok((o, sr))
}

/// A borrowed optional text by its characters.
pub open spec fn opt_str_view(o: Option<&str>) -> Option<Seq<char>> {
    match o {
        Some(s) => Some(s@),
        None => None,
    }
}

/// What `serde_json::from_str::<Value>(text)` gives, followed by
/// `.pointer(pointer)`, `.as_array()`, `.first()`, `["sourceRef"]` and
/// `.as_str()`: the source reference of the first resource listed under the
/// pointer, `None` where the text is no JSON or any step finds nothing.
pub uninterp spec fn json_first_source_ref(text: Seq<char>, pointer: Seq<char>) -> Option<Seq<char>>;

/// Parses a stored draft with `serde_json` and reads the `sourceRef` of the
/// first resource in the array under a JSON pointer. Only named.
#[verifier::external_body]
fn first_source_ref(text: &str, pointer: &str) -> (r: Option<String>)
    ensures
        opt_view(r) == json_first_source_ref(text@, pointer@),
{
    let value = serde_json::from_str::<serde_json::Value>(text).ok()?;
    value
        .pointer(pointer)
        .and_then(serde_json::Value::as_array)
        .and_then(|resources| resources.first())
        .and_then(|resource| resource["sourceRef"].as_str())
        .map(str::to_owned)
}

/// The source directory to publish: the first source code resource of the
/// agent's result, else the first of the stored draft's normalized resources.
pub open spec fn spec_source_ref_from_results(agent_result: Option<Seq<char>>, result: Option<Seq<char>>) -> Option<
    Seq<char>,
> {
    let from_agent = match agent_result {
        Some(a) => json_first_source_ref(a, "/resources/sourceCode"@),
        None => None,
    };
    match from_agent {
        Some(s) => Some(s),
        None => match result {
            Some(t) => json_first_source_ref(t, "/normalizedResources/sourceCode"@),
            None => None,
        },
    }
}

/// The source directory to publish, from the stored JSON of the agent's
/// result and of the draft.
pub fn source_ref_from_results(agent_result: Option<&str>, result: Option<&str>) -> (r: Option<String>)
    ensures
        opt_view(r) == spec_source_ref_from_results(opt_str_view(agent_result), opt_str_view(result)),
{
    let from_agent = match agent_result {
        Some(a) => first_source_ref(a, "/resources/sourceCode"),
        None => None,
    };
    match from_agent {
        Some(s) => Some(s),
        None => match result {
            Some(t) => first_source_ref(t, "/normalizedResources/sourceCode"),
            None => None,
        },
    }
}

/// What `serde_json::from_str::<Value>(text)` gives, followed by
/// `["projectDraft"]["slug"].as_str()`: the draft's project path, `None`
/// where the text is no JSON or holds no such text.
pub uninterp spec fn json_draft_slug(text: Seq<char>) -> Option<Seq<char>>;

/// Parses a stored draft with `serde_json` and reads `projectDraft.slug`.
/// Only named.
#[verifier::external_body]
fn draft_slug_field(text: &str) -> (r: Option<String>)
    ensures
        opt_view(r) == json_draft_slug(text@),
{
    let value = serde_json::from_str::<serde_json::Value>(text).ok()?;
    value["projectDraft"]["slug"].as_str().map(str::to_owned)
}

/// The project path that a stored draft names, if any.
pub fn draft_slug_of(result_json: Option<&str>) -> (r: Option<String>)
    ensures
        opt_view(r) == (match opt_str_view(result_json) {
            Some(t) => json_draft_slug(t),
            None => None,
        }),
{
    match result_json {
        Some(t) => draft_slug_field(t),
        None => None,
    }
}

/// What `serde_json::from_slice::<Value>(output)` gives for the output of
/// `gh repo view --json description,isPrivate,url,defaultBranchRef`:
/// `description` and `url` as texts, `isPrivate` as a boolean and
/// `defaultBranchRef.name` as a text, each `None` where it is missing or of
/// another kind; `None` as a whole where the output is no JSON.
pub uninterp spec fn json_repo_view(output: Seq<u8>) -> Option<
    (Option<Seq<char>>, Option<bool>, Option<Seq<char>>, Option<Seq<char>>),
>;

/// Parses the output of `gh repo view` with `serde_json::from_slice` and
/// picks its four fields. Only named.
#[verifier::external_body]
fn repo_view_fields(output: &[u8]) -> (r: Option<(Option<String>, Option<bool>, Option<String>, Option<String>)>)
    ensures
        match r {
            Some((d, p, b, u)) => json_repo_view(output@) == Some((opt_view(d), p, opt_view(b), opt_view(u))),
            None => json_repo_view(output@) is None,
        },
{
    let value = serde_json::from_slice::<serde_json::Value>(output).ok()?;
    Some((
        value["description"].as_str().map(str::to_owned),
        value["isPrivate"].as_bool(),
        value.pointer("/defaultBranchRef/name").and_then(serde_json::Value::as_str).map(str::to_owned),
        value["url"].as_str().map(str::to_owned),
    ))
}

/// What a repository of the wanted name says of itself.
#[derive(Debug)]
pub struct RepoView {
    /// Its description is that of this job.
    pub same_job: bool,
    pub is_private: bool,
    pub default_branch: Option<String>,
    /// Its address, or the usual one of its full name where it gives none.
    pub url: String,
}

/// Reads the output of `gh repo view` for `full_name`; `None` where it is no
/// JSON.
pub fn read_repo_view(output: &[u8], description: &str, full_name: &str) -> (r: Option<RepoView>)
    ensures
        match json_repo_view(output@) {
            None => r is None,
            Some((d, p, b, u)) => r matches Some(v) && v.same_job == (d == Some(description@))
                && v.is_private == (p == Some(true)) && opt_view(v.default_branch) == b && v.url@ == (
            match u {
                Some(u) => u,
                None => "https://github.com/"@ + full_name@,
            }),
        },
{
    match repo_view_fields(output) {
        None => None,
        Some((d, p, b, u)) => {
            let same_job = match &d {
                Some(text) => {
                    let t = chars_of(text.as_str());
                    eq_lit(t.as_slice(), description)
                },
                None => false,
            };
            let is_private = match p {
                Some(flag) => flag,
                None => false,
            };
            let url = match u {
                Some(text) => text,
                None => repo_url(full_name),
            };
            Some(RepoView { same_job, is_private, default_branch: b, url })
        },
    }
}

/// The path part of a repository name: the draft's path, else `import-` and
/// the first eight bytes of the job id.
pub fn publication_slug(draft_slug: Option<String>, job_id: &str) -> (r: String)
    requires
        draft_slug is None ==> on_boundary(job_id@, 8),
    ensures
        r@ == (match opt_view(draft_slug) {
            Some(s) => s,
            None => "import-"@ + byte_prefix(job_id@, 8),
        }),
{
    match draft_slug {
        Some(s) => s,
        None => {
            let mut out = crate::text::lit("import-");
            let j = chars_of(job_id);
            let mut used: usize = 0;
            let mut k: usize = 0;
            proof {
                assert(j@.subrange(0, 0) =~= Seq::<char>::empty());
                assert(j@.subrange(0, j@.len() as int) =~= j@);
            }
            while k < j.len() && used < 8
                invariant
                    0 <= k <= j@.len(),
                    0 <= used <= 8,
                    j@ == job_id@,
                    on_boundary(j@.subrange(k as int, j@.len() as int), (8 - used) as nat),
                    byte_prefix(job_id@, 8) == j@.subrange(0, k as int) + byte_prefix(
                        j@.subrange(k as int, j@.len() as int),
                        (8 - used) as nat,
                    ),
                    out@ == "import-"@ + j@.subrange(0, k as int),
                decreases j.len() - k,
            {
                let ghost rest = j@.subrange(k as int, j@.len() as int);
                let w = crate::text::char_len_utf8(j[k]);
                proof {
                    assert(rest[0] == j@[k as int]);
                    assert(rest.drop_first() =~= j@.subrange(k + 1, j@.len() as int));
                    assert(j@.subrange(0, k + 1) =~= j@.subrange(0, k as int) + seq![j@[k as int]]);
                }
                out.push(j[k]);
                used = used + w;
                k += 1;
            }
            proof {
                let rest = j@.subrange(k as int, j@.len() as int);
                assert(byte_prefix(rest, (8 - used) as nat) =~= Seq::<char>::empty());
                assert(j@.subrange(0, k as int) + Seq::<char>::empty() =~= j@.subrange(0, k as int));
                reveal_strlit("import-");
            }
            string_of(out.as_slice())
        },
    }
}

/// A failed publication is queued again when it is asked for again; any
/// other publication of the job stays as it is.
pub fn requeues_publication(status: &str) -> (r: bool)
    ensures
        r == (status@ == "failed"@),
{
    let s = chars_of(status);
    eq_lit(s.as_slice(), "failed")
}

/// `私有源码仓库 <owner>/<repo> 已排队`.
pub fn queued_message(owner: &str, repo_name: &str) -> (r: String)
    ensures
        r@ == "私有源码仓库 "@ + owner@ + "/"@ + repo_name@ + " 已排队"@,
{
    let mut out = crate::text::lit("私有源码仓库 ");
    push_str(&mut out, owner);
    push_str(&mut out, "/");
    push_str(&mut out, repo_name);
    push_str(&mut out, " 已排队");
    string_of(out.as_slice())
}

/// `正在创建私有源码仓库 <owner>/<repo>`.
pub fn started_message(owner: &str, repo_name: &str) -> (r: String)
    ensures
        r@ == "正在创建私有源码仓库 "@ + owner@ + "/"@ + repo_name@,
{
    let mut out = crate::text::lit("正在创建私有源码仓库 ");
    push_str(&mut out, owner);
    push_str(&mut out, "/");
    push_str(&mut out, repo_name);
    string_of(out.as_slice())
}

/// `私有源码仓库已创建：<url>`.
pub fn completed_message(url: &str) -> (r: String)
    ensures
        r@ == "私有源码仓库已创建："@ + url@,
{
    let mut out = crate::text::lit("私有源码仓库已创建：");
    push_str(&mut out, url);
    string_of(out.as_slice())
}

// ----------------------------------------------------------------------------
// What may be published
// ----------------------------------------------------------------------------

/// Why a source reference cannot be published from, if it cannot.
#[derive(Clone, Copy, Debug, PartialEq, Eq, Structural)]
pub enum SourceRefError {
    Remote,
    Unsafe,
}

impl SourceRefError {
    pub open spec fn spec_message(&self) -> &'static str {
        match self {
            SourceRefError::Remote => "remote GitHub sources are not implemented in this milestone",
            SourceRefError::Unsafe => "source reference contains an unsafe path",
        }
    }

    pub fn message(&self) -> (r: &'static str)
        ensures
            r == self.spec_message(),
    {
        match self {
            SourceRefError::Remote => "remote GitHub sources are not implemented in this milestone",
            SourceRefError::Unsafe => "source reference contains an unsafe path",
        }
    }
}

/// The source reference as a relative path below the extracted material:
/// URLs are refused, `\` reads as `/`, and only plain names are allowed.
pub fn source_reference_path(source_ref: &str) -> (r: Result<String, SourceRefError>)
    ensures
        (starts_with(source_ref@, "http://"@) || starts_with(source_ref@, "https://"@)) ==> r
            == Err::<String, SourceRefError>(SourceRefError::Remote),
        !(starts_with(source_ref@, "http://"@) || starts_with(source_ref@, "https://"@)) ==> (
        if normal_relative(crate::imports::names::forward_slashes(source_ref@)) {
            r matches Ok(p) && p@ == crate::imports::names::forward_slashes(source_ref@)
        } else {
            r == Err::<String, SourceRefError>(SourceRefError::Unsafe)
        }),
{
    let s = chars_of(source_ref);
    if crate::text::starts_with_lit(s.as_slice(), "http://") || crate::text::starts_with_lit(
        s.as_slice(),
        "https://",
    ) {
        return Err(SourceRefError::Remote);
    }
    let mut p: Vec<char> = Vec::new();
    let mut i: usize = 0;
    while i < s.len()
        invariant
            0 <= i <= s@.len(),
            s@ == source_ref@,
            p@ == crate::imports::names::forward_slashes(s@.subrange(0, i as int)),
        decreases s.len() - i,
    {
        p.push(if s[i] == '\\' { '/' } else { s[i] });
        proof {
            assert(crate::imports::names::forward_slashes(s@.subrange(0, i + 1))
                =~= crate::imports::names::forward_slashes(s@.subrange(0, i as int)).push(
                if s@[i as int] == '\\' {
                    '/'
                } else {
                    s@[i as int]
                },
            ));
        }
        i += 1;
    }
    proof {
        assert(s@.subrange(0, s@.len() as int) =~= s@);
    }
    let path = string_of(p.as_slice());
    if !is_normal_relative_path(path.as_str()) {
        return Err(SourceRefError::Unsafe);
    }
    Ok(path)
}

/// An archive that the material unpacked: its contents sit beside it in
/// `<stem>.__contents`.
pub open spec fn spec_is_archive(path: Seq<char>) -> bool {
    match extension(path) {
        Some(e) => one_of(ascii_lowercase(e), ARCHIVE_EXTENSIONS@),
        None => false,
    }
}

pub const ARCHIVE_EXTENSIONS: [&'static str; 3] = ["zip", "7z", "rar"];

pub fn is_archive(path: &str) -> (r: bool)
    ensures
        r == spec_is_archive(path@),
{
    let p = chars_of(path);
    match path_extension(p.as_slice()) {
        Some(e) => {
            let l = to_ascii_lowercase(e.as_slice());
            is_one_of(l.as_slice(), &ARCHIVE_EXTENSIONS)
        },
        None => false,
    }
}

/// The folder that holds an unpacked archive's contents.
pub fn contents_dir_name(stem: &str) -> (r: String)
    ensures
        r@ == stem@ + ".__contents"@,
{
    let mut out = chars_of(stem);
    push_str(&mut out, ".__contents");
    string_of(out.as_slice())
}

/// Folders that are never published: version control, dependencies and
/// build output.
pub const IGNORED_DIRECTORIES: [&'static str; 9] = [
    ".git",
    "node_modules",
    "target",
    ".venv",
    "venv",
    "__pycache__",
    ".next",
    "dist",
    "build",
];

pub fn ignored_directory(name: &str) -> (r: bool)
    ensures
        r == one_of(ascii_lowercase(name@), IGNORED_DIRECTORIES@),
{
    let n = chars_of(name);
    let l = to_ascii_lowercase(n.as_slice());
    is_one_of(l.as_slice(), &IGNORED_DIRECTORIES)
}

/// File names that hold keys and credentials.
pub const SECRET_FILE_NAMES: [&'static str; 6] = [
    "id_rsa",
    "id_ed25519",
    "auth.json",
    "credentials",
    "credentials.json",
    "service-account.json",
];

/// File endings of keys and certificates.
pub const SECRET_FILE_ENDINGS: [&'static str; 4] = [".pem", ".key", ".p12", ".pfx"];

/// A file whose name (in ASCII lower case) says it holds a secret: an
/// environment file other than an example, a key, a credential file, or a
/// key or certificate by its ending.
pub open spec fn spec_sensitive_name(file: Seq<char>) -> bool {
    let name = ascii_lowercase(file);
    ||| (name == ".env"@ || starts_with(name, ".env."@)) && !ends_with(name, ".example"@)
    ||| one_of(name, SECRET_FILE_NAMES@)
    ||| exists|k: int| 0 <= k < SECRET_FILE_ENDINGS@.len() && ends_with(name, #[trigger] SECRET_FILE_ENDINGS@[k]@)
}

pub fn sensitive_file_name(file: &str) -> (r: bool)
    ensures
        r == spec_sensitive_name(file@),
{
    let f = chars_of(file);
    let name = to_ascii_lowercase(f.as_slice());
    if (eq_lit(name.as_slice(), ".env") || crate::text::starts_with_lit(name.as_slice(), ".env."))
        && !crate::text::ends_with_lit(name.as_slice(), ".example") {
        return true;
    }
    if is_one_of(name.as_slice(), &SECRET_FILE_NAMES) {
        return true;
    }
    let mut k: usize = 0;
    while k < SECRET_FILE_ENDINGS.len()
        invariant
            0 <= k <= SECRET_FILE_ENDINGS@.len(),
            name@ == ascii_lowercase(file@),
            forall|j: int| 0 <= j < k ==> !ends_with(name@, #[trigger] SECRET_FILE_ENDINGS@[j]@),
        decreases SECRET_FILE_ENDINGS.len() - k,
    {
        if crate::text::ends_with_lit(name.as_slice(), SECRET_FILE_ENDINGS[k]) {
            return true;
        }
        k += 1;
    }
    false
}

/// The largest file a published repository may hold (GitHub's limit).
pub const GITHUB_MAX_FILE_BYTES: u64 = 104857600;

/// Files up to this size are read and searched for secrets.
pub const MAX_SECRET_SCAN_BYTES: u64 = 2097152;

/// Words that give away a key or token in a text.
pub const SECRET_MARKERS: [&'static str; 12] = [
    "-----begin private key-----",
    "-----begin rsa private key-----",
    "github_pat_",
    "ghp_",
    "gho_",
    "ghu_",
    "ghs_",
    "ghr_",
    "openai_api_key=",
    "github_token=",
    "gh_token=",
    "sk-proj-",
];

/// Whether a text, in ASCII lower case, holds a secret marker.
pub fn has_secret_marker(text: &str) -> (r: bool)
    ensures
        r == crate::text::contains_any(ascii_lowercase(text@), SECRET_MARKERS@),
{
    let t = chars_of(text);
    let l = to_ascii_lowercase(t.as_slice());
    crate::text::contains_any_of(l.as_slice(), &SECRET_MARKERS)
}

/// Whether the bytes of a file give away a secret: a text (without a NUL
/// byte) that, read as UTF-8 with replacements, holds a secret marker.
pub fn secret_content(bytes: &[u8]) -> (r: bool)
    ensures
        r == (!bytes@.contains(0u8) && crate::text::contains_any(
            ascii_lowercase(utf8_lossy(bytes@)),
            SECRET_MARKERS@,
        )),
{
    let mut i: usize = 0;
    while i < bytes.len()
        invariant
            0 <= i <= bytes@.len(),
            forall|j: int| 0 <= j < i ==> bytes@[j] != 0u8,
        decreases bytes.len() - i,
    {
        if bytes[i] == 0u8 {
            assert(bytes@.contains(0u8)) by {
                assert(bytes@[i as int] == 0u8);
            }
            return false;
        }
        i += 1;
    }
    let text = lossy_text(bytes);
    has_secret_marker(text.as_str())
}

} // verus!
