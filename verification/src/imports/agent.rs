//! The import agent: what a structured draft from Codex must satisfy, the
//! prompt it is given, and how the Codex runner is configured and called.

use vstd::prelude::*;

use crate::paths::{dot, meaningful, path_pieces, meaningful_pieces};
use crate::json::{json_string, json_string_literal};
use crate::projects::opt_view;
use crate::text::{chars_of, eq_lit, is_one_of, one_of, push_str, string_of, trim, trim_chars};
use crate::urls::{parse_url, parsed_url};

verus! {

/// The five categories a draft may name.
pub const PRIMARY_CATEGORIES: [&'static str; 5] = ["传统软件", "智能硬件", "AI 软件", "数字媒体", "研究成果"];

/// A value that the agent read from the material, with the words it read it from.
#[derive(Clone, Debug)]
pub struct EvidencedValue {
    pub value: String,
    pub evidence: String,
}

/// A resource that the agent found. The agent's confidence, a number, stays
/// with the caller; `confidence_in_range` says whether it lies in [0, 1].
#[derive(Clone, Debug)]
pub struct AgentResource {
    pub display_name: String,
    pub source_ref: String,
    pub evidence: String,
    pub confidence_in_range: bool,
}

/// The resources of a draft, by kind.
#[derive(Clone, Debug)]
pub struct AgentNormalizedResources {
    pub source_code: Vec<AgentResource>,
    pub documents: Vec<AgentResource>,
    pub presentations: Vec<AgentResource>,
    pub videos: Vec<AgentResource>,
    pub links: Vec<AgentResource>,
}

impl AgentNormalizedResources {
    /// No resources.
    pub fn empty() -> (r: AgentNormalizedResources)
        ensures
            r.all().len() == 0,
    {
        AgentNormalizedResources {
            source_code: Vec::new(),
            documents: Vec::new(),
            presentations: Vec::new(),
            videos: Vec::new(),
            links: Vec::new(),
        }
    }

    /// All resources, kind after kind.
    pub open spec fn all(&self) -> Seq<AgentResource> {
        self.source_code@ + self.documents@ + self.presentations@ + self.videos@ + self.links@
    }
}

/// A structured draft from Codex.
#[derive(Clone, Debug)]
pub struct AgentImportResult {
    pub project_name: String,
    pub summary: String,
    pub primary_category: String,
    pub suggested_tags: Vec<EvidencedValue>,
    pub owner: Option<EvidencedValue>,
    pub source: Option<EvidencedValue>,
    pub highest_award: Option<EvidencedValue>,
    pub resources: AgentNormalizedResources,
    pub warnings: Vec<String>,
}

/// Why a draft from Codex is refused.
#[derive(Clone, Copy, Debug, PartialEq, Eq, Structural)]
pub enum AgentResultError {
    InvalidProjectName,
    InvalidSummary,
    UnsupportedCategory,
    InvalidEvidencedValue,
    MissingValueEvidence,
    InvalidResourceName,
    InvalidResourceReference,
    MissingResourceEvidence,
    InvalidResourceConfidence,
    TooManyTags,
    TooManyWarnings,
}

impl AgentResultError {
    /// The message of the error.
    pub open spec fn spec_message(&self) -> &'static str {
        match self {
            AgentResultError::InvalidProjectName => "Codex returned an invalid project name",
            AgentResultError::InvalidSummary => "Codex returned an invalid project summary",
            AgentResultError::UnsupportedCategory => "Codex returned an unsupported primary category",
            AgentResultError::InvalidEvidencedValue => "Codex returned an invalid evidenced value",
            AgentResultError::MissingValueEvidence => "Codex returned a value without concise evidence",
            AgentResultError::InvalidResourceName => "Codex returned an invalid resource name",
            AgentResultError::InvalidResourceReference => "Codex returned an invalid resource reference",
            AgentResultError::MissingResourceEvidence => "Codex returned a resource without concise evidence",
            AgentResultError::InvalidResourceConfidence => "Codex returned an invalid resource confidence",
            AgentResultError::TooManyTags => "Codex returned too many suggested tags",
            AgentResultError::TooManyWarnings => "Codex returned too many warnings",
        }
    }

    /// The message of the error.
    pub fn message(&self) -> (r: &'static str)
        ensures
            r == self.spec_message(),
    {
        match self {
            AgentResultError::InvalidProjectName => "Codex returned an invalid project name",
            AgentResultError::InvalidSummary => "Codex returned an invalid project summary",
            AgentResultError::UnsupportedCategory => "Codex returned an unsupported primary category",
            AgentResultError::InvalidEvidencedValue => "Codex returned an invalid evidenced value",
            AgentResultError::MissingValueEvidence => "Codex returned a value without concise evidence",
            AgentResultError::InvalidResourceName => "Codex returned an invalid resource name",
            AgentResultError::InvalidResourceReference => "Codex returned an invalid resource reference",
            AgentResultError::MissingResourceEvidence => "Codex returned a resource without concise evidence",
            AgentResultError::InvalidResourceConfidence => "Codex returned an invalid resource confidence",
            AgentResultError::TooManyTags => "Codex returned too many suggested tags",
            AgentResultError::TooManyWarnings => "Codex returned too many warnings",
        }
    }
}

/// A text that is not blank and has at most `max` characters.
pub open spec fn bounded_text(s: Seq<char>, max: nat) -> bool {
    trim(s).len() > 0 && s.len() <= max
}

pub open spec fn evidenced_failure(v: EvidencedValue) -> Option<AgentResultError> {
    if !bounded_text(v.value@, 120) {
        Some(AgentResultError::InvalidEvidencedValue)
    } else if !bounded_text(v.evidence@, 500) {
        Some(AgentResultError::MissingValueEvidence)
    } else {
        None
    }
}

pub open spec fn resource_failure(r: AgentResource) -> Option<AgentResultError> {
    if !bounded_text(r.display_name@, 180) {
        Some(AgentResultError::InvalidResourceName)
    } else if !bounded_text(r.source_ref@, 2048) {
        Some(AgentResultError::InvalidResourceReference)
    } else if !bounded_text(r.evidence@, 500) {
        Some(AgentResultError::MissingResourceEvidence)
    } else if !r.confidence_in_range {
        Some(AgentResultError::InvalidResourceConfidence)
    } else {
        None
    }
}

/// The failure of the first evidenced value that fails.
pub open spec fn first_evidenced_failure(s: Seq<EvidencedValue>) -> Option<AgentResultError>
    decreases s.len(),
{
    if s.len() == 0 {
        None
    } else if evidenced_failure(s[0]) is Some {
        evidenced_failure(s[0])
    } else {
        first_evidenced_failure(s.drop_first())
    }
}

/// The failure of the first resource that fails.
pub open spec fn first_resource_failure(s: Seq<AgentResource>) -> Option<AgentResultError>
    decreases s.len(),
{
    if s.len() == 0 {
        None
    } else if resource_failure(s[0]) is Some {
        resource_failure(s[0])
    } else {
        first_resource_failure(s.drop_first())
    }
}

pub open spec fn option_seq(o: Option<EvidencedValue>) -> Seq<EvidencedValue> {
    match o {
        Some(v) => seq![v],
        None => Seq::empty(),
    }
}

/// The evidenced values of a draft: its tags, then owner, source and award.
pub open spec fn evidenced_values(r: AgentImportResult) -> Seq<EvidencedValue> {
    r.suggested_tags@ + option_seq(r.owner) + option_seq(r.source) + option_seq(r.highest_award)
}

/// Why a draft is refused, if it is: the first rule it breaks.
pub open spec fn result_failure(r: AgentImportResult) -> Option<AgentResultError> {
    if trim(r.project_name@).len() == 0 || trim(r.project_name@).len() > 120 {
        Some(AgentResultError::InvalidProjectName)
    } else if !bounded_text(r.summary@, 500) {
        Some(AgentResultError::InvalidSummary)
    } else if !one_of(r.primary_category@, PRIMARY_CATEGORIES@) {
        Some(AgentResultError::UnsupportedCategory)
    } else if first_evidenced_failure(evidenced_values(r)) is Some {
        first_evidenced_failure(evidenced_values(r))
    } else if first_resource_failure(r.resources.all()) is Some {
        first_resource_failure(r.resources.all())
    } else if r.suggested_tags@.len() > 12 {
        Some(AgentResultError::TooManyTags)
    } else if r.warnings@.len() > 30 {
        Some(AgentResultError::TooManyWarnings)
    } else {
        None
    }
}

fn bounded(s: &str, max: usize) -> (r: bool)
    ensures
        r == bounded_text(s@, max as nat),
{
    let c = chars_of(s);
    let t = trim_chars(c.as_slice());
    t.len() > 0 && c.len() <= max
}

impl EvidencedValue {
    pub fn validate(&self) -> (r: Result<(), AgentResultError>)
        ensures
            r == (match evidenced_failure(*self) {
                Some(e) => Err(e),
                None => Ok(()),
            }),
    {
        if !bounded(self.value.as_str(), 120) {
            return Err(AgentResultError::InvalidEvidencedValue);
        }
        if !bounded(self.evidence.as_str(), 500) {
            return Err(AgentResultError::MissingValueEvidence);
        }
        Ok(())
    }
}

impl AgentResource {
    pub fn validate(&self) -> (r: Result<(), AgentResultError>)
        ensures
            r == (match resource_failure(*self) {
                Some(e) => Err(e),
                None => Ok(()),
            }),
    {
        if !bounded(self.display_name.as_str(), 180) {
            return Err(AgentResultError::InvalidResourceName);
        }
        if !bounded(self.source_ref.as_str(), 2048) {
            return Err(AgentResultError::InvalidResourceReference);
        }
        if !bounded(self.evidence.as_str(), 500) {
            return Err(AgentResultError::MissingResourceEvidence);
        }
        if !self.confidence_in_range {
            return Err(AgentResultError::InvalidResourceConfidence);
        }
        Ok(())
    }
}

proof fn lemma_evidenced_append(a: Seq<EvidencedValue>, b: Seq<EvidencedValue>)
    ensures
        first_evidenced_failure(a + b) == (if first_evidenced_failure(a) is Some {
            first_evidenced_failure(a)
        } else {
            first_evidenced_failure(b)
        }),
    decreases a.len(),
{
    if a.len() > 0 {
        assert((a + b).drop_first() =~= a.drop_first() + b);
        lemma_evidenced_append(a.drop_first(), b);
    } else {
        assert(a + b =~= b);
    }
}

proof fn lemma_resources_append(a: Seq<AgentResource>, b: Seq<AgentResource>)
    ensures
        first_resource_failure(a + b) == (if first_resource_failure(a) is Some {
            first_resource_failure(a)
        } else {
            first_resource_failure(b)
        }),
    decreases a.len(),
{
    if a.len() > 0 {
        assert((a + b).drop_first() =~= a.drop_first() + b);
        lemma_resources_append(a.drop_first(), b);
    } else {
        assert(a + b =~= b);
    }
}

fn check_evidenced(values: &Vec<EvidencedValue>) -> (r: Result<(), AgentResultError>)
    ensures
        r == (match first_evidenced_failure(values@) {
            Some(e) => Err(e),
            None => Ok(()),
        }),
{
    let mut i: usize = 0;
    assert(values@.subrange(0, values@.len() as int) =~= values@);
    while i < values.len()
        invariant
            0 <= i <= values@.len(),
            first_evidenced_failure(values@) == first_evidenced_failure(values@.subrange(i as int, values@.len() as int)),
        decreases values.len() - i,
    {
        let ghost rest = values@.subrange(i as int, values@.len() as int);
        proof {
            assert(rest[0] == values@[i as int]);
            assert(rest.drop_first() =~= values@.subrange(i + 1, values@.len() as int));
        }
        let r = values[i].validate();
        if r.is_err() {
            return r;
        }
        i += 1;
    }
    Ok(())
}

fn check_option(value: &Option<EvidencedValue>) -> (r: Result<(), AgentResultError>)
    ensures
        r == (match first_evidenced_failure(option_seq(*value)) {
            Some(e) => Err(e),
            None => Ok(()),
        }),
{
    match value {
        Some(v) => {
            proof {
                reveal_with_fuel(first_evidenced_failure, 2);
                assert(option_seq(*value).drop_first() =~= Seq::<EvidencedValue>::empty());
                assert(option_seq(*value)[0] == *v);
            }
            v.validate()
        },
        None => Ok(()),
    }
}

fn check_resources(values: &Vec<AgentResource>) -> (r: Result<(), AgentResultError>)
    ensures
        r == (match first_resource_failure(values@) {
            Some(e) => Err(e),
            None => Ok(()),
        }),
{
    let mut i: usize = 0;
    assert(values@.subrange(0, values@.len() as int) =~= values@);
    while i < values.len()
        invariant
            0 <= i <= values@.len(),
            first_resource_failure(values@) == first_resource_failure(values@.subrange(i as int, values@.len() as int)),
        decreases values.len() - i,
    {
        let ghost rest = values@.subrange(i as int, values@.len() as int);
        proof {
            assert(rest[0] == values@[i as int]);
            assert(rest.drop_first() =~= values@.subrange(i + 1, values@.len() as int));
        }
        let r = values[i].validate();
        if r.is_err() {
            return r;
        }
        i += 1;
    }
    Ok(())
}

impl AgentImportResult {
    /// Checks a draft: name and summary, the category, every evidenced value
    /// and resource, and the number of tags and warnings.
    pub fn validate(&self) -> (r: Result<(), AgentResultError>)
        ensures
            r == (match result_failure(*self) {
                Some(e) => Err(e),
                None => Ok(()),
            }),
    {
        let name = chars_of(self.project_name.as_str());
        let trimmed = trim_chars(name.as_slice());
        if trimmed.len() == 0 || trimmed.len() > 120 {
            return Err(AgentResultError::InvalidProjectName);
        }
        if !bounded(self.summary.as_str(), 500) {
            return Err(AgentResultError::InvalidSummary);
        }
        let category = chars_of(self.primary_category.as_str());
        if !is_one_of(category.as_slice(), &PRIMARY_CATEGORIES) {
            return Err(AgentResultError::UnsupportedCategory);
        }
        proof {
            let t = self.suggested_tags@;
            let o = option_seq(self.owner);
            let s = option_seq(self.source);
            let a = option_seq(self.highest_award);
            assert(evidenced_values(*self) == t + o + s + a);
            lemma_evidenced_append(t + o + s, a);
            lemma_evidenced_append(t + o, s);
            lemma_evidenced_append(t, o);
            let n = self.resources;
            lemma_resources_append(
                n.source_code@ + n.documents@ + n.presentations@ + n.videos@,
                n.links@,
            );
            lemma_resources_append(n.source_code@ + n.documents@ + n.presentations@, n.videos@);
            lemma_resources_append(n.source_code@ + n.documents@, n.presentations@);
            lemma_resources_append(n.source_code@, n.documents@);
        }
        check_evidenced(&self.suggested_tags)?;
        check_option(&self.owner)?;
        check_option(&self.source)?;
        check_option(&self.highest_award)?;
        check_resources(&self.resources.source_code)?;
        check_resources(&self.resources.documents)?;
        check_resources(&self.resources.presentations)?;
        check_resources(&self.resources.videos)?;
        check_resources(&self.resources.links)?;
        if self.suggested_tags.len() > 12 {
            return Err(AgentResultError::TooManyTags);
        }
        if self.warnings.len() > 30 {
            return Err(AgentResultError::TooManyWarnings);
        }
        Ok(())
    }
}

// ----------------------------------------------------------------------------
// The prompt
// ----------------------------------------------------------------------------

/// What a run of the agent is about.
#[derive(Clone, Debug)]
pub struct AgentRunRequest {
    pub run_id: String,
    pub job_id: String,
    pub analysis_dir: String,
    pub analysis_bundle_path: String,
    pub refinement_prompt: String,
}

pub open spec fn spec_agent_prompt(system_prompt: Seq<char>, request: AgentRunRequest) -> Seq<char> {
    let refinement = if trim(request.refinement_prompt@).len() == 0 {
        "（无补充提示）"@
    } else {
        trim(request.refinement_prompt@)
    };
    system_prompt + "\n\n本次任务信息：\n- job_id: "@ + request.job_id@ + "\n- 分析包文件: "@
        + request.analysis_bundle_path@ + "\n\n成员在材料整理完成后补充的提示：\n"@ + refinement
}

/// The prompt of a run: the system prompt, the job and its analysis bundle,
/// and the member's refinement (or a note that there is none).
pub fn agent_prompt(system_prompt: &str, request: &AgentRunRequest) -> (r: String)
    ensures
        r@ == spec_agent_prompt(system_prompt@, *request),
{
    let mut out = chars_of(system_prompt);
    push_str(&mut out, "\n\n本次任务信息：\n- job_id: ");
    push_str(&mut out, request.job_id.as_str());
    push_str(&mut out, "\n- 分析包文件: ");
    push_str(&mut out, request.analysis_bundle_path.as_str());
    push_str(&mut out, "\n\n成员在材料整理完成后补充的提示：\n");
    let raw = chars_of(request.refinement_prompt.as_str());
    let refinement = trim_chars(raw.as_slice());
    if refinement.len() == 0 {
        push_str(&mut out, "（无补充提示）");
    } else {
        crate::text::push_all(&mut out, refinement.as_slice());
    }
    string_of(out.as_slice())
}

/// The API key that a key file holds: its text, trimmed; a file with
/// nothing but white space is refused.
pub fn api_key_from_file(contents: &str) -> (r: Result<String, &'static str>)
    ensures
        match r {
            Ok(key) => key@ == trim(contents@) && key@.len() > 0,
            Err(m) => m@ == "Codex API key file is empty"@ && trim(contents@).len() == 0,
        },
{
    let c = chars_of(contents);
    let t = trim_chars(c.as_slice());
    if t.len() == 0 {
        Err("Codex API key file is empty")
    } else {
        Ok(string_of(t.as_slice()))
    }
}

/// The run time limit in seconds, kept between 30 seconds and an hour.
pub fn bounded_timeout(seconds: u64) -> (r: u64)
    ensures
        r == (if seconds < 30 {
            30
        } else if seconds > 3600 {
            3600
        } else {
            seconds
        }),
{
    if seconds < 30 {
        30
    } else if seconds > 3600 {
        3600
    } else {
        seconds
    }
}

// ----------------------------------------------------------------------------
// The Codex runner
// ----------------------------------------------------------------------------

/// How the Codex command line runner is set up. Paths are texts; the time
/// limit is in seconds.
#[derive(Clone, Debug)]
pub struct CodexExecConfig {
    pub enabled: bool,
    pub binary: String,
    pub codex_home: String,
    pub base_url: Option<String>,
    pub model: Option<String>,
    pub api_key_file: Option<String>,
    pub timeout_secs: u64,
}

/// Runs the import agent with the Codex command line tool.
#[derive(Clone, Debug)]
pub struct CodexExecRunner {
    pub config: CodexExecConfig,
}

/// Why a Codex runner cannot be set up or started.
#[derive(Clone, Copy, Debug, PartialEq, Eq, Structural)]
pub enum CodexConfigError {
    MissingEndpoint,
    MissingCredentials,
    InvalidBaseUrl,
    NotHttpUrl,
    BaseUrlNotConfigured,
    ModelNotConfigured,
}

impl CodexConfigError {
    /// The message of the error.
    pub open spec fn spec_message(&self) -> &'static str {
        match self {
            CodexConfigError::MissingEndpoint => "enabled Codex runner is missing base URL or model",
            CodexConfigError::MissingCredentials => "enabled Codex runner requires an API key file or CODEX_HOME/auth.json",
            CodexConfigError::InvalidBaseUrl => "invalid Codex base URL",
            CodexConfigError::NotHttpUrl => "Codex base URL must be an absolute HTTP(S) URL",
            CodexConfigError::BaseUrlNotConfigured => "Codex base URL is not configured",
            CodexConfigError::ModelNotConfigured => "Codex model is not configured",
        }
    }

    /// The message of the error.
    pub fn message(&self) -> (r: &'static str)
        ensures
            r == self.spec_message(),
    {
        match self {
            CodexConfigError::MissingEndpoint => "enabled Codex runner is missing base URL or model",
            CodexConfigError::MissingCredentials => "enabled Codex runner requires an API key file or CODEX_HOME/auth.json",
            CodexConfigError::InvalidBaseUrl => "invalid Codex base URL",
            CodexConfigError::NotHttpUrl => "Codex base URL must be an absolute HTTP(S) URL",
            CodexConfigError::BaseUrlNotConfigured => "Codex base URL is not configured",
            CodexConfigError::ModelNotConfigured => "Codex model is not configured",
        }
    }
}

/// `PathBuf::is_relative` on Unix.
pub open spec fn is_relative(p: Seq<char>) -> bool {
    !(p.len() > 0 && p[0] == '/')
}

/// The number of `Path::components` of a relative path: its names, and a
/// leading `.`.
pub open spec fn component_count(p: Seq<char>) -> nat {
    meaningful(path_pieces(p)).len() + (if path_pieces(p)[0] == dot() {
        1nat
    } else {
        0nat
    })
}

/// `base.join(rel)` on Unix.
pub open spec fn path_join(base: Seq<char>, rel: Seq<char>) -> Seq<char> {
    if rel.len() > 0 && rel[0] == '/' {
        rel
    } else if base.len() > 0 && base.last() != '/' {
        base + seq!['/'] + rel
    } else {
        base + rel
    }
}

pub(crate) fn join_path(base: &str, rel: &str) -> (r: String)
    ensures
        r@ == path_join(base@, rel@),
{
    let b = chars_of(base);
    let rl = chars_of(rel);
    if rl.len() > 0 && rl[0] == '/' {
        return String::from_str(rel);
    }
    let mut out = b;
    if out.len() > 0 && out[out.len() - 1] != '/' {
        out.push('/');
    }
    crate::text::push_all(&mut out, rl.as_slice());
    string_of(out.as_slice())
}

proof fn lemma_meaningful_shorter(p: Seq<Seq<char>>)
    ensures
        meaningful(p).len() <= p.len(),
        p.len() > 0 && p[0] == dot() ==> meaningful(p).len() < p.len(),
    decreases p.len(),
{
    if p.len() > 0 {
        lemma_meaningful_shorter(p.drop_last());
        if p.len() == 1 {
            assert(p.drop_last().len() == 0);
        } else {
            assert(p.drop_last()[0] == p[0]);
        }
    }
}

fn count_components(p: &str) -> (r: usize)
    ensures
        r == component_count(p@),
{
    let s = chars_of(p);
    let names = meaningful_pieces(s.as_slice());
    let seps = crate::text::lit("/");
    proof {
        reveal_strlit("/");
        assert(seps@ =~= seq!['/']);
        crate::paths::lemma_split_nonempty(s@, seps@);
    }
    let pieces = crate::paths::split_any(s.as_slice(), seps.as_slice());
    let first_is_dot = crate::text::eq_lit(pieces[0].as_slice(), ".");
    proof {
        reveal_strlit(".");
        assert("."@ =~= dot());
        lemma_meaningful_shorter(path_pieces(s@));
        assert(pieces@.len() == path_pieces(s@).len());
        assert(pieces@[0]@ == path_pieces(s@)[0]);
    }
    if first_is_dot {
        assert(path_pieces(s@)[0] == dot());
        let n = names.len();
        let m = pieces.len();
        assert(n < m);
        n + 1
    } else {
        names.len()
    }
}

fn resolved(path: &str, startup_dir: &str, join_it: bool) -> (r: String)
    ensures
        r@ == (if join_it {
            path_join(startup_dir@, path@)
        } else {
            path@
        }),
{
    if join_it {
        join_path(startup_dir, path)
    } else {
        String::from_str(path)
    }
}

/// `r` is `config` with its time limit bounded and its relative paths
/// resolved against the directory the process started in: the binary where
/// it has more than one component (a bare name is looked up on the search
/// path), the Codex home and the key file always.
pub open spec fn resolved_from(r: CodexExecConfig, config: CodexExecConfig, startup_dir: Seq<char>) -> bool {
    &&& r.enabled == config.enabled
    &&& r.timeout_secs == (if config.timeout_secs < 30 {
        30
    } else if config.timeout_secs > 3600 {
        3600
    } else {
        config.timeout_secs
    })
    &&& r.binary@ == (if is_relative(config.binary@) && component_count(config.binary@) > 1 {
        path_join(startup_dir, config.binary@)
    } else {
        config.binary@
    })
    &&& r.codex_home@ == (if is_relative(config.codex_home@) {
        path_join(startup_dir, config.codex_home@)
    } else {
        config.codex_home@
    })
    &&& opt_view(r.api_key_file) == (match opt_view(config.api_key_file) {
        Some(f) => Some(
            if is_relative(f) {
                path_join(startup_dir, f)
            } else {
                f
            },
        ),
        None => None,
    })
    &&& opt_view(r.base_url) == opt_view(config.base_url)
    &&& opt_view(r.model) == opt_view(config.model)
}

/// Bounds the time limit and resolves the relative paths (see `resolved_from`).
pub fn resolve_codex_paths(config: CodexExecConfig, startup_dir: &str) -> (r: CodexExecConfig)
    ensures
        resolved_from(r, config, startup_dir@),
{
    let b = chars_of(config.binary.as_str());
    let binary_relative = !(b.len() > 0 && b[0] == '/');
    let join_binary = binary_relative && count_components(config.binary.as_str()) > 1;
    let binary = resolved(config.binary.as_str(), startup_dir, join_binary);
    let h = chars_of(config.codex_home.as_str());
    let codex_home = resolved(config.codex_home.as_str(), startup_dir, !(h.len() > 0 && h[0] == '/'));
    let api_key_file = match &config.api_key_file {
        Some(f) => {
            let fc = chars_of(f.as_str());
            Some(resolved(f.as_str(), startup_dir, !(fc.len() > 0 && fc[0] == '/')))
        },
        None => None,
    };
    CodexExecConfig {
        enabled: config.enabled,
        binary,
        codex_home,
        base_url: config.base_url,
        model: config.model,
        api_key_file,
        timeout_secs: bounded_timeout(config.timeout_secs),
    }
}

pub open spec fn blank_option(o: Option<String>) -> bool {
    match o {
        Some(s) => s@.len() == 0,
        None => true,
    }
}

/// Why an enabled runner cannot work, if it cannot. `home_auth_exists` says
/// whether the Codex home holds `auth.json`.
pub open spec fn codex_config_failure(config: CodexExecConfig, home_auth_exists: bool) -> Option<
    CodexConfigError,
> {
    if !config.enabled {
        None
    } else if blank_option(config.base_url) || blank_option(config.model) {
        Some(CodexConfigError::MissingEndpoint)
    } else if config.api_key_file is None && !home_auth_exists {
        Some(CodexConfigError::MissingCredentials)
    } else {
        match parsed_url(config.base_url->0@) {
            None => Some(CodexConfigError::InvalidBaseUrl),
            Some((scheme, host, _)) => if !(scheme == "http"@ || scheme == "https"@) || host is None {
                Some(CodexConfigError::NotHttpUrl)
            } else {
                None
            },
        }
    }
}

impl CodexExecRunner {
    /// A runner that is switched off.
    pub fn disabled() -> (r: CodexExecRunner)
        ensures
            !r.config.enabled,
            r.config.binary@ == "codex"@,
            r.config.codex_home@ == "data/codex-home"@,
            r.config.base_url is None,
            r.config.model is None,
            r.config.api_key_file is None,
            r.config.timeout_secs == 600,
    {
        CodexExecRunner {
            config: CodexExecConfig {
                enabled: false,
                binary: String::from_str("codex"),
                codex_home: String::from_str("data/codex-home"),
                base_url: None,
                model: None,
                api_key_file: None,
                timeout_secs: 600,
            },
        }
    }

    /// A runner for a configuration: paths resolved against `startup_dir`
    /// (see `resolve_codex_paths`), and an enabled runner checked for its
    /// endpoint, its credentials (a key file, else `auth.json` in the
    /// resolved Codex home: `home_auth_exists`) and an HTTP(S) base URL.
    pub fn new(config: CodexExecConfig, startup_dir: &str, home_auth_exists: bool) -> (r: Result<
        CodexExecRunner,
        CodexConfigError,
    >)
        ensures
            match r {
                Ok(runner) => resolved_from(runner.config, config, startup_dir@)
                    && codex_config_failure(runner.config, home_auth_exists) is None,
                Err(e) => exists|c: CodexExecConfig|
                    resolved_from(c, config, startup_dir@) && codex_config_failure(c, home_auth_exists)
                        == Some(e),
            },
    {
        let resolved_config = resolve_codex_paths(config, startup_dir);
        match check_codex_config(&resolved_config, home_auth_exists) {
            Ok(()) => Ok(CodexExecRunner { config: resolved_config }),
            Err(e) => Err(e),
        }
    }

    pub fn enabled(&self) -> (r: bool)
        ensures
            r == self.config.enabled,
    {
        self.config.enabled
    }

    pub fn runner_name(&self) -> (r: &'static str)
        ensures
            r@ == "codex_exec"@,
    {
        "codex_exec"
    }

    pub fn model_name(&self) -> (r: Option<String>)
        ensures
            opt_view(r) == opt_view(self.config.model),
    {
        self.config.model.clone()
    }
}

/// Checks a resolved configuration (see `codex_config_failure`).
pub fn check_codex_config(config: &CodexExecConfig, home_auth_exists: bool) -> (r: Result<
    (),
    CodexConfigError,
>)
    ensures
        r == (match codex_config_failure(*config, home_auth_exists) {
            Some(e) => Err(e),
            None => Ok(()),
        }),
{
    if !config.enabled {
        return Ok(());
    }
    let base_blank = match &config.base_url {
        Some(b) => b.as_str().is_empty(),
        None => true,
    };
    let model_blank = match &config.model {
        Some(m) => m.as_str().is_empty(),
        None => true,
    };
    if base_blank || model_blank {
        return Err(CodexConfigError::MissingEndpoint);
    }
    if config.api_key_file.is_none() && !home_auth_exists {
        return Err(CodexConfigError::MissingCredentials);
    }
    let base = match &config.base_url {
        Some(b) => b,
        None => {
            return Err(CodexConfigError::MissingEndpoint);
        },
    };
    match parse_url(base.as_str()) {
        None => Err(CodexConfigError::InvalidBaseUrl),
        Some((scheme, host, _)) => {
            let sc = chars_of(scheme.as_str());
            let web = crate::text::eq_lit(sc.as_slice(), "http") || crate::text::eq_lit(
                sc.as_slice(),
                "https",
            );
            if !web || host.is_none() {
                Err(CodexConfigError::NotHttpUrl)
            } else {
                Ok(())
            }
        },
    }
}

/// The command line of a Codex run: an isolated, read-only, ephemeral run in
/// the analysis directory, with the model, the output schema and result
/// files, and the base URL as a JSON string. The prompt comes on stdin (`-`).
pub open spec fn codex_args(
    analysis_dir: Seq<char>,
    model: Seq<char>,
    schema_path: Seq<char>,
    result_path: Seq<char>,
    base_url_json: Seq<char>,
) -> Seq<Seq<char>> {
    seq![
        "exec"@,
        "--json"@,
        "--ephemeral"@,
        "--ignore-user-config"@,
        "--ignore-rules"@,
        "--skip-git-repo-check"@,
        "--sandbox"@,
        "read-only"@,
        "--cd"@,
        analysis_dir,
        "--model"@,
        model,
        "--output-schema"@,
        schema_path,
        "--output-last-message"@,
        result_path,
        "--config"@,
        "openai_base_url="@ + base_url_json,
        "--config"@,
        "shell_environment_policy.inherit=\"core\""@,
        "--config"@,
        "shell_environment_policy.ignore_default_excludes=false"@,
        "-"@,
    ]
}

pub open spec fn spec_base_url_origin(base_url: Option<Seq<char>>) -> Option<Seq<char>> {
    match base_url {
        None => None,
        Some(b) => match parsed_url(b) {
            None => None,
            Some((scheme, host, port)) => match host {
                None => None,
                Some(h) => Some(
                    scheme + "://"@ + h + match port {
                        Some(p) => ":"@ + crate::text::decimal(p as nat),
                        None => Seq::<char>::empty(),
                    },
                ),
            },
        },
    }
}

impl CodexExecRunner {
    /// The arguments of a Codex run (see `codex_args`).
    pub fn command_args(&self, request: &AgentRunRequest, schema_path: &str, result_path: &str) -> (r:
        Result<Vec<String>, CodexConfigError>)
        ensures
            match r {
                Ok(args) => match (opt_view(self.config.base_url), opt_view(self.config.model)) {
                    (Some(b), Some(m)) => crate::projects::strings_view(args@) == codex_args(
                        request.analysis_dir@,
                        m,
                        schema_path@,
                        result_path@,
                        json_string_literal(b),
                    ),
                    _ => false,
                },
                Err(e) => if self.config.base_url is None {
                    e == CodexConfigError::BaseUrlNotConfigured
                } else {
                    self.config.model is None && e == CodexConfigError::ModelNotConfigured
                },
            },
    {
        let base_url = match &self.config.base_url {
            Some(b) => b,
            None => {
                return Err(CodexConfigError::BaseUrlNotConfigured);
            },
        };
        let model = match &self.config.model {
            Some(m) => m,
            None => {
                return Err(CodexConfigError::ModelNotConfigured);
            },
        };
        let json = json_string(base_url.as_str());
        let mut base_arg = crate::text::lit("openai_base_url=");
        push_str(&mut base_arg, json.as_str());
        let mut args: Vec<String> = Vec::new();
        args.push(String::from_str("exec"));
        args.push(String::from_str("--json"));
        args.push(String::from_str("--ephemeral"));
        args.push(String::from_str("--ignore-user-config"));
        args.push(String::from_str("--ignore-rules"));
        args.push(String::from_str("--skip-git-repo-check"));
        args.push(String::from_str("--sandbox"));
        args.push(String::from_str("read-only"));
        args.push(String::from_str("--cd"));
        args.push(request.analysis_dir.clone());
        args.push(String::from_str("--model"));
        args.push(model.clone());
        args.push(String::from_str("--output-schema"));
        args.push(String::from_str(schema_path));
        args.push(String::from_str("--output-last-message"));
        args.push(String::from_str(result_path));
        args.push(String::from_str("--config"));
        args.push(string_of(base_arg.as_slice()));
        args.push(String::from_str("--config"));
        args.push(String::from_str("shell_environment_policy.inherit=\"core\""));
        args.push(String::from_str("--config"));
        args.push(String::from_str("shell_environment_policy.ignore_default_excludes=false"));
        args.push(String::from_str("-"));
        proof {
            assert(crate::projects::strings_view(args@) =~= codex_args(
                request.analysis_dir@,
                model@,
                schema_path@,
                result_path@,
                json@,
            ));
        }
        Ok(args)
    }

    /// The scheme, host and port of the base URL, for the record of a run.
    pub fn base_url_origin(&self) -> (r: Option<String>)
        ensures
            opt_view(r) == spec_base_url_origin(opt_view(self.config.base_url)),
    {
        let base = match &self.config.base_url {
            Some(b) => b,
            None => {
                return None;
            },
        };
        match parse_url(base.as_str()) {
            None => None,
            Some((scheme, host, port)) => match host {
                None => None,
                Some(h) => {
                    let mut out = chars_of(scheme.as_str());
                    push_str(&mut out, "://");
                    push_str(&mut out, h.as_str());
                    match port {
                        Some(p) => {
                            push_str(&mut out, ":");
                            crate::text::push_decimal(&mut out, p as u64);
                        },
                        None => {},
                    }
                    Some(string_of(out.as_slice()))
                },
            },
        }
    }
}

// ----------------------------------------------------------------------------
// The event stream of a run
// ----------------------------------------------------------------------------

/// A top-level field of a JSON text as `serde_json` reads it, as a code with a
/// text: 0 where the text is no JSON, 1 where the field is absent (or the
/// value no object), 2 and the string where it is a string, 3 where it is
/// another value.
pub uninterp spec fn json_top_field(line: Seq<char>, key: Seq<char>) -> (u8, Seq<char>);

/// Reads one line of JSON with `serde_json::from_str` into a `Value` and
/// looks up one key of it with `Value::get`.
#[verifier::external_body]
fn json_field(line: &str, key: &str) -> (r: (u8, String))
    ensures
        (r.0, r.1@) == json_top_field(line@, key@),
{
    match serde_json::from_str::<serde_json::Value>(line) {
        Err(_) => (0, String::new()),
        Ok(value) => match value.get(key) {
            None => (1, String::new()),
            Some(serde_json::Value::String(text)) => (2, text.clone()),
            Some(_) => (3, String::new()),
        },
    }
}

/// The thread of a run after one more line of its event stream: a
/// `thread.started` event names it by `thread_id` (or, where that key is
/// absent, `threadId`), as a string, or leaves it unknown; other lines leave
/// it as it was.
pub open spec fn spec_next_thread_id(current: Option<Seq<char>>, line: Seq<char>) -> Option<Seq<char>> {
    if json_top_field(line, "type"@) == (2u8, "thread.started"@) {
        let snake = json_top_field(line, "thread_id"@);
        let camel = json_top_field(line, "threadId"@);
        if snake.0 == 2 {
            Some(snake.1)
        } else if snake.0 == 1 && camel.0 == 2 {
            Some(camel.1)
        } else {
            None
        }
    } else {
        current
    }
}

/// Follows the thread of a run through one line of its event stream.
pub fn next_thread_id(current: Option<String>, line: &str) -> (r: Option<String>)
    ensures
        opt_view(r) == spec_next_thread_id(opt_view(current), line@),
{
    let (kind, text) = json_field(line, "type");
    let t = chars_of(text.as_str());
    if !(kind == 2 && eq_lit(t.as_slice(), "thread.started")) {
        return current;
    }
    let (snake_kind, snake) = json_field(line, "thread_id");
    if snake_kind == 2 {
        return Some(snake);
    }
    if snake_kind == 1 {
        let (camel_kind, camel) = json_field(line, "threadId");
        if camel_kind == 2 {
            return Some(camel);
        }
    }
    None
}

} // verus!
