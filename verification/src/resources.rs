//! Stored project resources: where their files live, what preview they get,
//! which import files may become resources, and preview links.

use vstd::prelude::*;

use vstd::utf8::encode_utf8;

use crate::checksum::{is_lower_hex, sha256_hex_bytes, sha256_of_text};

use crate::auth::FeiyueIdentity;
use crate::error::AppError;
use crate::imports::agent::path_join;
pub use crate::paths::is_safe_relative_path;
use crate::paths::{extension, file_name, path_extension, path_file_name, safe_relative};
use crate::projects::{opt_view, ProjectResourceInput, COMMITTABLE_STATUSES};
use crate::text::{
    ascii_lowercase, chars_of, eq_lit, is_one_of, one_of, push_all, push_str, starts_with,
    string_of, to_ascii_lowercase,
};

verus! {

/// How long a preview link stays valid, in minutes.
pub const PREVIEW_TOKEN_MINUTES: i64 = 10;

/// A link to an HTML preview and when it expires.
#[derive(Clone, Debug)]
pub struct PreviewTicket {
    pub url: String,
    pub expires_at: String,
}

/// A resource ready to be stored with its project.
#[derive(Clone, Debug)]
pub struct PreparedResource {
    pub id: String,
    pub resource_type: String,
    pub title: String,
    pub url: Option<String>,
    pub object_key: Option<String>,
    pub source_name: Option<String>,
    pub mime_type: Option<String>,
    pub size_bytes: Option<i64>,
    pub display_path: Option<String>,
    pub preview_kind: Option<String>,
    pub entry_path: Option<String>,
    pub source_import_job_id: Option<String>,
    pub source_artifact_id: Option<String>,
    pub sha256: Option<String>,
    pub is_existing: bool,
}

/// A stored resource as read back.
#[derive(Clone, Debug)]
pub struct StoredResourceRow {
    pub id: String,
    pub object_key: Option<String>,
    pub source_name: Option<String>,
    pub mime_type: Option<String>,
    pub size_bytes: Option<i64>,
    pub display_path: Option<String>,
    pub preview_kind: Option<String>,
    pub entry_path: Option<String>,
    pub source_import_job_id: Option<String>,
    pub source_artifact_id: Option<String>,
    pub sha256: Option<String>,
}

/// The storage key of a resource file: `<project>/<resource>/<leaf>`.
pub fn storage_key(project_id: &str, resource_id: &str, leaf: &str) -> (r: String)
    ensures
        r@ == project_id@ + "/"@ + resource_id@ + "/"@ + leaf@,
{
    let mut out = chars_of(project_id);
    push_str(&mut out, "/");
    push_str(&mut out, resource_id);
    push_str(&mut out, "/");
    push_str(&mut out, leaf);
    string_of(out.as_slice())
}

pub const IMAGE_PREVIEW_EXTENSIONS: [&'static str; 6] = ["png", "jpg", "jpeg", "gif", "webp", "svg"];

pub const VIDEO_PREVIEW_EXTENSIONS: [&'static str; 4] = ["mp4", "webm", "mov", "m4v"];

pub const CODE_PREVIEW_EXTENSIONS: [&'static str; 20] = [
    "txt",
    "md",
    "rs",
    "ts",
    "tsx",
    "js",
    "jsx",
    "json",
    "toml",
    "yaml",
    "yml",
    "py",
    "java",
    "c",
    "cpp",
    "h",
    "hpp",
    "css",
    "html",
    "json",
];

/// The preview a file gets, by its extension (in ASCII lower case), else by
/// an image media type; else it is only downloaded.
pub open spec fn spec_preview_kind(path: Seq<char>, mime_type: Option<Seq<char>>) -> Seq<char> {
    let e = ascii_lowercase(
        match extension(path) {
            Some(e) => e,
            None => Seq::empty(),
        },
    );
    if e == "pdf"@ {
        "pdf"@
    } else if e == "docx"@ {
        "docx"@
    } else if one_of(e, IMAGE_PREVIEW_EXTENSIONS@) {
        "image"@
    } else if one_of(e, VIDEO_PREVIEW_EXTENSIONS@) {
        "video"@
    } else if one_of(e, CODE_PREVIEW_EXTENSIONS@) {
        "code"@
    } else if mime_type matches Some(m) && starts_with(m, "image/"@) {
        "image"@
    } else {
        "download"@
    }
}

pub fn infer_preview_kind(path: &str, mime_type: Option<&str>) -> (r: String)
    ensures
        r@ == spec_preview_kind(
            path@,
            match mime_type {
                Some(m) => Some(m@),
                None => None,
            },
        ),
{
    let p = chars_of(path);
    let raw = match path_extension(p.as_slice()) {
        Some(e) => e,
        None => Vec::new(),
    };
    let e = to_ascii_lowercase(raw.as_slice());
    let kind = if eq_lit(e.as_slice(), "pdf") {
        "pdf"
    } else if eq_lit(e.as_slice(), "docx") {
        "docx"
    } else if is_one_of(e.as_slice(), &IMAGE_PREVIEW_EXTENSIONS) {
        "image"
    } else if is_one_of(e.as_slice(), &VIDEO_PREVIEW_EXTENSIONS) {
        "video"
    } else if is_one_of(e.as_slice(), &CODE_PREVIEW_EXTENSIONS) {
        "code"
    } else {
        match mime_type {
            Some(m) => {
                let mc = chars_of(m);
                if crate::text::starts_with_lit(mc.as_slice(), "image/") {
                    "image"
                } else {
                    "download"
                }
            },
            None => "download",
        }
    };
    String::from_str(kind)
}

// ----------------------------------------------------------------------------
// Media types
// ----------------------------------------------------------------------------

/// What `mime_guess::from_path(path).first_raw()` gives for a path.
pub uninterp spec fn guessed_mime(path: Seq<char>) -> Option<Seq<char>>;

/// Calls `mime_guess::from_path(path).first_raw()`: the media type that the
/// path's extension suggests, if it suggests one. Only named.
#[verifier::external_body]
fn guess_mime(path: &str) -> (r: Option<String>)
    ensures
        opt_view(r) == guessed_mime(path@),
{
    mime_guess::from_path(path).first_raw().map(str::to_owned)
}

/// The media type of a file: the stored one, else the one its name suggests.
pub fn mime_type_of(stored: Option<String>, path: &str) -> (r: Option<String>)
    ensures
        opt_view(r) == (match opt_view(stored) {
            Some(m) => Some(m),
            None => guessed_mime(path@),
        }),
{
    match stored {
        Some(m) => Some(m),
        None => guess_mime(path),
    }
}

/// The media type a file is served with: its own, else
/// `application/octet-stream`.
pub fn served_mime_type(stored: Option<String>, path: &str) -> (r: String)
    ensures
        r@ == (match opt_view(stored) {
            Some(m) => m,
            None => match guessed_mime(path@) {
                Some(g) => g,
                None => "application/octet-stream"@,
            },
        }),
{
    match mime_type_of(stored, path) {
        Some(m) => m,
        None => String::from_str("application/octet-stream"),
    }
}

// ----------------------------------------------------------------------------
// Tokens
// ----------------------------------------------------------------------------

/// What is stored of a preview token: its SHA-256 digest, never the token.
pub fn hash_token(token: &str) -> (r: String)
    ensures
        r@ == sha256_hex_bytes(encode_utf8(token@)),
        r@.len() == 64,
        forall|i: int| 0 <= i < 64 ==> is_lower_hex(#[trigger] r@[i]),
{
    sha256_of_text(token)
}

// ----------------------------------------------------------------------------
// Preview links
// ----------------------------------------------------------------------------

/// A path served under the public preview address where one is set.
pub fn public_preview_url(base: &Option<String>, path: &str) -> (r: String)
    ensures
        r@ == (match opt_view(*base) {
            Some(b) => b + path@,
            None => path@,
        }),
{
    match base {
        Some(b) => {
            let mut out = chars_of(b.as_str());
            push_str(&mut out, path);
            string_of(out.as_slice())
        },
        None => String::from_str(path),
    }
}

/// The path of a resource preview: the token and the entry page, by default
/// `index.html`.
pub fn resource_preview_path(token: &str, entry_path: &Option<String>) -> (r: String)
    ensures
        r@ == "/api/v1/resource-previews/"@ + token@ + "/"@ + (match opt_view(*entry_path) {
            Some(e) => e,
            None => "index.html"@,
        }),
{
    let mut out = crate::text::lit("/api/v1/resource-previews/");
    push_str(&mut out, token);
    push_str(&mut out, "/");
    match entry_path {
        Some(e) => push_str(&mut out, e.as_str()),
        None => push_str(&mut out, "index.html"),
    }
    string_of(out.as_slice())
}

/// The path of an import file's preview: the token and the file's name, by
/// default `index.html`.
pub fn import_preview_path(token: &str, artifact_path: &str) -> (r: String)
    ensures
        r@ == "/api/v1/import-previews/"@ + token@ + "/"@ + (match file_name(artifact_path@) {
            Some(n) => n,
            None => "index.html"@,
        }),
{
    let mut out = crate::text::lit("/api/v1/import-previews/");
    push_str(&mut out, token);
    push_str(&mut out, "/");
    let p = chars_of(artifact_path);
    match path_file_name(p.as_slice()) {
        Some(n) => push_all(&mut out, n.as_slice()),
        None => push_str(&mut out, "index.html"),
    }
    string_of(out.as_slice())
}

/// Only an HTML bundle has a preview link.
pub fn check_previewable(preview_kind: &Option<String>) -> (r: Result<(), AppError>)
    ensures
        r is Ok <==> opt_view(*preview_kind) == Some("html_bundle"@),
        r matches Err(e) ==> (e matches AppError::BadRequest(m) && m@ == "该资源不需要 HTML 演示令牌"@),
{
    let ok = match preview_kind {
        Some(k) => {
            let kc = chars_of(k.as_str());
            eq_lit(kc.as_slice(), "html_bundle")
        },
        None => false,
    };
    if ok {
        Ok(())
    } else {
        Err(AppError::BadRequest(String::from_str("该资源不需要 HTML 演示令牌")))
    }
}

/// An HTML presentation: a presentation whose file ends in `.html` in any
/// ASCII case.
pub open spec fn spec_is_html_presentation(artifact_kind: Seq<char>, path: Seq<char>) -> bool {
    artifact_kind == "presentation"@ && match extension(path) {
        Some(e) => ascii_lowercase(e) == "html"@,
        None => false,
    }
}

pub fn is_html_presentation(artifact_kind: &str, path: &str) -> (r: bool)
    ensures
        r == spec_is_html_presentation(artifact_kind@, path@),
{
    let k = chars_of(artifact_kind);
    if !eq_lit(k.as_slice(), "presentation") {
        return false;
    }
    let p = chars_of(path);
    match path_extension(p.as_slice()) {
        Some(e) => {
            let l = to_ascii_lowercase(e.as_slice());
            eq_lit(l.as_slice(), "html")
        },
        None => false,
    }
}

/// Only an HTML presentation among import files has a preview link.
pub fn check_import_previewable(artifact_kind: &str, path: &str) -> (r: Result<(), AppError>)
    ensures
        r is Ok <==> spec_is_html_presentation(artifact_kind@, path@),
        r matches Err(e) ==> (e matches AppError::BadRequest(m) && m@ == "该导入附件不需要 HTML 演示令牌"@),
{
    if is_html_presentation(artifact_kind, path) {
        Ok(())
    } else {
        Err(AppError::BadRequest(String::from_str("该导入附件不需要 HTML 演示令牌")))
    }
}

/// The file a preview link asks for: the requested path where it is not
/// empty, else the entry page; it must be a safe relative path. Anything else
/// is not found.
pub fn preview_asset_path(requested: Option<String>, entry_path: Option<String>) -> (r: Result<
    String,
    AppError,
>)
    ensures
        ({
            let chosen = match opt_view(requested) {
                Some(p) => if p.len() > 0 {
                    Some(p)
                } else {
                    opt_view(entry_path)
                },
                None => opt_view(entry_path),
            };
            match chosen {
                Some(p) => if safe_relative(p) {
                    r matches Ok(x) && x@ == p
                } else {
                    r matches Err(e) && e is NotFound
                },
                None => r matches Err(e) && e is NotFound,
            }
        }),
{
    let chosen = match requested {
        Some(p) => if p.as_str().is_empty() {
            entry_path
        } else {
            Some(p)
        },
        None => entry_path,
    };
    match chosen {
        Some(p) => if is_safe_relative_path(p.as_str()) {
            Ok(p)
        } else {
            Err(AppError::NotFound)
        },
        None => Err(AppError::NotFound),
    }
}

// ----------------------------------------------------------------------------
// Import files that become resources
// ----------------------------------------------------------------------------

/// Where an import file lives below its job: previews in the job's own
/// folder, everything else under `extracted`. Unsafe paths are not found.
pub fn import_artifact_location(job_root: &str, relative_path: &str) -> (r: Result<
    (String, String),
    AppError,
>)
    ensures
        safe_relative(relative_path@) ==> (r matches Ok((root, path)) && root@ == (if starts_with(
            relative_path@,
            "analysis/previews/"@,
        ) {
            job_root@
        } else {
            path_join(job_root@, "extracted"@)
        }) && path@ == path_join(root@, relative_path@)),
        !safe_relative(relative_path@) ==> (r matches Err(e) && e is NotFound),
{
    if !is_safe_relative_path(relative_path) {
        return Err(AppError::NotFound);
    }
    let rp = chars_of(relative_path);
    let root = if crate::text::starts_with_lit(rp.as_slice(), "analysis/previews/") {
        String::from_str(job_root)
    } else {
        crate::imports::agent::join_path(job_root, "extracted")
    };
    let path = crate::imports::agent::join_path(root.as_str(), relative_path);
    Ok((root, path))
}

/// Who may turn an import file into a resource, and when: the job's creator
/// or a super administrator, once the job has been organised; and only a file
/// with a safe path.
pub fn check_artifact_use(
    identity: &FeiyueIdentity,
    created_by_sid: &str,
    job_status: &str,
    relative_path: &str,
) -> (r: Result<(), AppError>)
    ensures
        created_by_sid@ != identity.sid@ && !identity.spec_is_superadmin() ==> (r matches Err(e)
            && e is Forbidden),
        !(created_by_sid@ != identity.sid@ && !identity.spec_is_superadmin()) ==> (if !one_of(
            job_status@,
            COMMITTABLE_STATUSES@,
        ) {
            r matches Err(e) && (e matches AppError::Conflict(m) && m@ == "导入任务尚未整理完成"@)
        } else if !safe_relative(relative_path@) {
            r matches Err(e) && (e matches AppError::BadRequest(m) && m@ == "导入附件路径不安全"@)
        } else {
            r is Ok
        }),
{
    let a = chars_of(created_by_sid);
    let b = chars_of(identity.sid.as_str());
    if !crate::text::chars_eq(a.as_slice(), b.as_slice()) && !identity.is_superadmin() {
        return Err(AppError::Forbidden);
    }
    let s = chars_of(job_status);
    if !is_one_of(s.as_slice(), &COMMITTABLE_STATUSES) {
        return Err(AppError::Conflict(String::from_str("导入任务尚未整理完成")));
    }
    if !is_safe_relative_path(relative_path) {
        return Err(AppError::BadRequest(String::from_str("导入附件路径不安全")));
    }
    Ok(())
}

/// The name a copied import file is stored under: `original` and its
/// extension in ASCII lower case, where it has a non-empty one.
pub fn stored_file_name(source_path: &str) -> (r: String)
    ensures
        r@ == "original"@ + (match extension(source_path@) {
            Some(e) => if e.len() > 0 {
                "."@ + ascii_lowercase(e)
            } else {
                Seq::empty()
            },
            None => Seq::empty(),
        }),
{
    let mut out = crate::text::lit("original");
    let p = chars_of(source_path);
    match path_extension(p.as_slice()) {
        Some(e) => {
            if e.len() > 0 {
                push_str(&mut out, ".");
                let l = to_ascii_lowercase(e.as_slice());
                push_all(&mut out, l.as_slice());
            }
        },
        None => {},
    }
    string_of(out.as_slice())
}

/// The file name of a path, or a default.
pub fn file_name_or(path: &str, default: &str) -> (r: String)
    ensures
        r@ == (match file_name(path@) {
            Some(n) => n,
            None => default@,
        }),
{
    let p = chars_of(path);
    match path_file_name(p.as_slice()) {
        Some(n) => string_of(n.as_slice()),
        None => String::from_str(default),
    }
}

/// A resource that keeps its stored file: the member's type, title and link
/// with what is stored.
pub fn existing_resource(input: &ProjectResourceInput, stored: StoredResourceRow) -> (r:
    PreparedResource)
    ensures
        r.id@ == stored.id@,
        r.resource_type@ == input.resource_type@,
        r.title@ == input.title@,
        opt_view(r.url) == opt_view(input.url),
        opt_view(r.object_key) == opt_view(stored.object_key),
        opt_view(r.source_name) == opt_view(stored.source_name),
        opt_view(r.mime_type) == opt_view(stored.mime_type),
        r.size_bytes == stored.size_bytes,
        opt_view(r.display_path) == opt_view(stored.display_path),
        opt_view(r.preview_kind) == opt_view(stored.preview_kind),
        opt_view(r.entry_path) == opt_view(stored.entry_path),
        opt_view(r.source_import_job_id) == opt_view(stored.source_import_job_id),
        opt_view(r.source_artifact_id) == opt_view(stored.source_artifact_id),
        opt_view(r.sha256) == opt_view(stored.sha256),
        r.is_existing,
{
    PreparedResource {
        id: stored.id,
        resource_type: input.resource_type.clone(),
        title: input.title.clone(),
        url: input.url.clone(),
        object_key: stored.object_key,
        source_name: stored.source_name,
        mime_type: stored.mime_type,
        size_bytes: stored.size_bytes,
        display_path: stored.display_path,
        preview_kind: stored.preview_kind,
        entry_path: stored.entry_path,
        source_import_job_id: stored.source_import_job_id,
        source_artifact_id: stored.source_artifact_id,
        sha256: stored.sha256,
        is_existing: true,
    }
}

/// A new resource without a file: a link with the member's type and title.
pub fn link_resource(input: &ProjectResourceInput, id: String) -> (r: PreparedResource)
    ensures
        r.id@ == id@,
        r.resource_type@ == input.resource_type@,
        r.title@ == input.title@,
        opt_view(r.url) == opt_view(input.url),
        r.object_key is None && r.source_name is None && r.mime_type is None,
        r.size_bytes is None && r.display_path is None && r.preview_kind is None,
        r.entry_path is None && r.source_import_job_id is None && r.source_artifact_id is None,
        r.sha256 is None,
        !r.is_existing,
{
    PreparedResource {
        id,
        resource_type: input.resource_type.clone(),
        title: input.title.clone(),
        url: input.url.clone(),
        object_key: None,
        source_name: None,
        mime_type: None,
        size_bytes: None,
        display_path: None,
        preview_kind: None,
        entry_path: None,
        source_import_job_id: None,
        source_artifact_id: None,
        sha256: None,
        is_existing: false,
    }
}

} // verus!
