//! What the import endpoints accept: links, uploads, prompts and chunked
//! uploads, and what a new import job is called.

use vstd::prelude::*;

use crate::error::AppError;
use crate::imports::draft::LinkInput;
use crate::imports::names::{spec_is_zip_path, is_zip_path, spec_safe_upload_name, safe_upload_name};
use crate::projects::{opt_view, strings_view};
use crate::text::{
    ascii_lowercase, chars_of, contains, decimal, ends_with, eq_lit, push_decimal, push_str,
    string_of, take, take_chars, to_ascii_lowercase, trim, trim_chars, utf8_len, utf8_len_of,
};
use crate::urls::{parse_url, parsed_url};

verus! {

/// The size of one upload chunk: 4 MiB.
pub const IMPORT_CHUNK_SIZE_BYTES: usize = 4194304;

// ----------------------------------------------------------------------------
// Links
// ----------------------------------------------------------------------------

/// Why a link is refused, if it is.
pub open spec fn link_failure(link: LinkInput) -> Option<Seq<char>> {
    if utf8_len(link.url@) > 2048 {
        Some("链接长度超过限制"@)
    } else {
        match parsed_url(trim(link.url@)) {
            None => Some("链接格式不正确："@ + link.url@),
            Some((scheme, _, _)) => if scheme == "http"@ || scheme == "https"@ {
                None
            } else {
                Some("链接只允许 HTTP 或 HTTPS"@)
            },
        }
    }
}

pub open spec fn first_link_failure(links: Seq<LinkInput>) -> Option<Seq<char>>
    decreases links.len(),
{
    if links.len() == 0 {
        None
    } else if link_failure(links[0]) is Some {
        link_failure(links[0])
    } else {
        first_link_failure(links.drop_first())
    }
}

fn check_link(link: &LinkInput) -> (r: Result<(), AppError>)
    ensures
        match link_failure(*link) {
            Some(m) => r matches Err(e) && (e matches AppError::BadRequest(t) && t@ == m),
            None => r is Ok,
        },
{
    let url = chars_of(link.url.as_str());
    if utf8_len_of(url.as_slice()) > 2048 {
        return Err(AppError::BadRequest(String::from_str("链接长度超过限制")));
    }
    let trimmed = crate::text::trim_str(link.url.as_str());
    match parse_url(trimmed.as_str()) {
        None => {
            let mut m = crate::text::lit("链接格式不正确：");
            push_str(&mut m, link.url.as_str());
            Err(AppError::BadRequest(string_of(m.as_slice())))
        },
        Some((scheme, _, _)) => {
            let s = chars_of(scheme.as_str());
            if eq_lit(s.as_slice(), "http") || eq_lit(s.as_slice(), "https") {
                Ok(())
            } else {
                Err(AppError::BadRequest(String::from_str("链接只允许 HTTP 或 HTTPS")))
            }
        },
    }
}

/// Links must be at most 2048 bytes, absolute URLs, HTTP or HTTPS; the first
/// link that is not is answered.
pub fn validate_links(links: &[LinkInput]) -> (r: Result<(), AppError>)
    ensures
        match first_link_failure(links@) {
            Some(m) => r matches Err(e) && (e matches AppError::BadRequest(t) && t@ == m),
            None => r is Ok,
        },
{
    let mut i: usize = 0;
    assert(links@.subrange(0, links@.len() as int) =~= links@);
    while i < links.len()
        invariant
            0 <= i <= links@.len(),
            first_link_failure(links@) == first_link_failure(
                links@.subrange(i as int, links@.len() as int),
            ),
        decreases links.len() - i,
    {
        let ghost rest = links@.subrange(i as int, links@.len() as int);
        proof {
            assert(rest[0] == links@[i as int]);
            assert(rest.drop_first() =~= links@.subrange(i + 1, links@.len() as int));
        }
        check_link(&links[i])?;
        i += 1;
    }
    Ok(())
}

/// Where a link points: GitHub (the host or a subdomain of `github.com`),
/// Baidu (a host with `baidu` in it), or the web. The host is compared in
/// ASCII lower case; a text that is no URL has an empty host.
pub open spec fn spec_link_provider(url: Seq<char>) -> &'static str {
    let host = ascii_lowercase(
        match parsed_url(url) {
            Some((_, Some(h), _)) => h,
            _ => Seq::empty(),
        },
    );
    if host == "github.com"@ || ends_with(host, ".github.com"@) {
        "github"
    } else if contains(host, "baidu"@) {
        "baidu"
    } else {
        "web"
    }
}

pub fn link_provider(url: &str) -> (r: &'static str)
    ensures
        r == spec_link_provider(url@),
{
    let host = match parse_url(url) {
        Some((_, Some(h), _)) => chars_of(h.as_str()),
        _ => Vec::new(),
    };
    let lower = to_ascii_lowercase(host.as_slice());
    if eq_lit(lower.as_slice(), "github.com") || crate::text::ends_with_lit(
        lower.as_slice(),
        ".github.com",
    ) {
        "github"
    } else if crate::text::contains_lit(lower.as_slice(), "baidu") {
        "baidu"
    } else {
        "web"
    }
}

/// The name a link is listed under: its title where that is not blank, else
/// its URL.
pub fn link_display_name(link: &LinkInput) -> (r: String)
    ensures
        r@ == (match opt_view(link.title) {
            Some(t) => if trim(t).len() > 0 {
                t
            } else {
                link.url@
            },
            None => link.url@,
        }),
{
    match &link.title {
        Some(t) => {
            let tc = chars_of(t.as_str());
            let tt = trim_chars(tc.as_slice());
            if tt.len() > 0 {
                t.clone()
            } else {
                link.url.clone()
            }
        },
        None => link.url.clone(),
    }
}

// ----------------------------------------------------------------------------
// Limits of a request
// ----------------------------------------------------------------------------

pub open spec fn too_large_message(max_upload_bytes: u64) -> Seq<char> {
    "附件总大小超过上传限制（"@ + decimal((max_upload_bytes / 1024 / 1024) as nat) + " MB）"@
}

fn too_large(max_upload_bytes: u64) -> (e: AppError)
    ensures
        e matches AppError::BadRequest(m) && m@ == too_large_message(max_upload_bytes),
{
    let mut m = crate::text::lit("附件总大小超过上传限制（");
    push_decimal(&mut m, max_upload_bytes / 1024 / 1024);
    push_str(&mut m, " MB）");
    AppError::BadRequest(string_of(m.as_slice()))
}

/// Another file may be added to a job that has `count` files: at most 50.
pub fn check_upload_count(count: usize) -> (r: Result<(), AppError>)
    ensures
        r is Ok <==> count < 50,
        r matches Err(e) ==> (e matches AppError::BadRequest(m) && m@ == "单个任务最多上传 50 个附件"@),
{
    if count >= 50 {
        Err(AppError::BadRequest(String::from_str("单个任务最多上传 50 个附件")))
    } else {
        Ok(())
    }
}

/// The uploads of a job may not exceed the upload limit in all.
pub fn check_upload_total(total_bytes: u64, max_upload_bytes: u64) -> (r: Result<(), AppError>)
    ensures
        r is Ok <==> total_bytes <= max_upload_bytes,
        r matches Err(e) ==> (e matches AppError::BadRequest(m) && m@ == too_large_message(
            max_upload_bytes,
        )),
{
    if total_bytes > max_upload_bytes {
        Err(too_large(max_upload_bytes))
    } else {
        Ok(())
    }
}

/// A job may have at most 20 links.
pub fn check_link_count(count: usize) -> (r: Result<(), AppError>)
    ensures
        r is Ok <==> count <= 20,
        r matches Err(e) ==> (e matches AppError::BadRequest(m) && m@ == "单个任务最多附加 20 个链接"@),
{
    if count > 20 {
        Err(AppError::BadRequest(String::from_str("单个任务最多附加 20 个链接")))
    } else {
        Ok(())
    }
}

/// The project text of a job may have at most 4000 characters.
pub fn check_prompt_length(prompt: &str) -> (r: Result<(), AppError>)
    ensures
        r is Ok <==> prompt@.len() <= 4000,
        r matches Err(e) ==> (e matches AppError::BadRequest(m) && m@ == "项目简介不能超过 4000 个字符"@),
{
    let p = chars_of(prompt);
    if p.len() > 4000 {
        Err(AppError::BadRequest(String::from_str("项目简介不能超过 4000 个字符")))
    } else {
        Ok(())
    }
}

// ----------------------------------------------------------------------------
// Naming a job
// ----------------------------------------------------------------------------

/// `<first> 等 <n> 个附件`.
pub open spec fn several_files_name(first: Seq<char>, n: nat) -> Seq<char> {
    first + " 等 "@ + decimal(n) + " 个附件"@
}

/// The name of a job's source: the only file, or the first file and the
/// number of files; else the first link; else `项目简介`.
pub open spec fn spec_source_name(uploads: Seq<Seq<char>>, links: Seq<LinkInput>) -> Seq<char> {
    if uploads.len() == 1 {
        uploads[0]
    } else if uploads.len() > 1 {
        several_files_name(uploads[0], uploads.len())
    } else if links.len() > 0 {
        links[0].url@
    } else {
        "项目简介"@
    }
}

/// The kind of a job's source: one ZIP file, only links, only text, or mixed.
pub open spec fn spec_source_kind(uploads: Seq<Seq<char>>, links: Seq<LinkInput>) -> Seq<char> {
    if uploads.len() == 1 && spec_is_zip_path(uploads[0]) {
        "zip"@
    } else if uploads.len() == 0 && links.len() > 0 {
        "link"@
    } else if uploads.len() == 0 {
        "prompt"@
    } else {
        "mixed"@
    }
}

fn several_files(first: &str, n: usize) -> (r: String)
    ensures
        r@ == several_files_name(first@, n as nat),
{
    let mut m = chars_of(first);
    push_str(&mut m, " 等 ");
    push_decimal(&mut m, n as u64);
    push_str(&mut m, " 个附件");
    string_of(m.as_slice())
}

/// The name and kind of a new job from its uploads (their stored names), links
/// and text; a job needs at least one of them. The links are checked first.
pub fn plan_import_source(uploads: &Vec<String>, links: &[LinkInput], prompt: &str) -> (r: Result<
    (String, String),
    AppError,
>)
    ensures
        match first_link_failure(links@) {
            Some(m) => r matches Err(e) && (e matches AppError::BadRequest(t) && t@ == m),
            None => if uploads@.len() == 0 && links@.len() == 0 && trim(prompt@).len() == 0 {
                r matches Err(e) && (e matches AppError::BadRequest(t) && t@
                    == "请至少填写项目简介、项目链接或上传一个附件"@)
            } else {
                r matches Ok((name, kind)) && name@ == spec_source_name(strings_view(uploads@), links@)
                    && kind@ == spec_source_kind(strings_view(uploads@), links@)
            },
        },
{
    validate_links(links)?;
    let p = chars_of(prompt);
    let t = trim_chars(p.as_slice());
    if uploads.len() == 0 && links.len() == 0 && t.len() == 0 {
        return Err(
            AppError::BadRequest(String::from_str("请至少填写项目简介、项目链接或上传一个附件")),
        );
    }
    let name = if uploads.len() == 1 {
        uploads[0].clone()
    } else if uploads.len() > 1 {
        several_files(uploads[0].as_str(), uploads.len())
    } else if links.len() > 0 {
        links[0].url.clone()
    } else {
        String::from_str("项目简介")
    };
    let kind = if uploads.len() == 1 && is_zip_path(uploads[0].as_str()) {
        String::from_str("zip")
    } else if uploads.len() == 0 && links.len() > 0 {
        String::from_str("link")
    } else if uploads.len() == 0 {
        String::from_str("prompt")
    } else {
        String::from_str("mixed")
    };
    Ok((name, kind))
}

// ----------------------------------------------------------------------------
// Chunked uploads
// ----------------------------------------------------------------------------

/// A file that a chunked upload announces.
#[derive(Clone, Debug)]
pub struct ChunkedImportFileInput {
    pub name: String,
    pub size_bytes: u64,
    pub mime_type: Option<String>,
}

/// A chunked import as announced: files, links and text.
#[derive(Clone, Debug)]
pub struct ChunkedImportInput {
    pub files: Vec<ChunkedImportFileInput>,
    pub links: Vec<LinkInput>,
    pub prompt: String,
}

/// How far a chunked upload has come.
#[derive(Clone, Debug)]
pub struct ChunkUploadResponse {
    pub received_bytes: u64,
    pub total_bytes: u64,
    pub progress: i64,
}

/// The sum of the announced sizes.
pub open spec fn announced_bytes(files: Seq<ChunkedImportFileInput>) -> nat
    decreases files.len(),
{
    if files.len() == 0 {
        0
    } else {
        announced_bytes(files.drop_last()) + files.last().size_bytes as nat
    }
}

/// Why an announced chunked import is refused, if it is.
pub open spec fn chunked_failure(input: ChunkedImportInput, max_upload_bytes: u64) -> Option<Seq<char>> {
    if input.files@.len() == 0 {
        Some("分片上传至少需要一个附件"@)
    } else if input.files@.len() > 50 {
        Some("单个任务最多上传 50 个附件"@)
    } else if input.prompt@.len() > 4000 {
        Some("项目简介不能超过 4000 个字符"@)
    } else if input.links@.len() > 20 {
        Some("单个任务最多附加 20 个链接"@)
    } else if first_link_failure(input.links@) is Some {
        first_link_failure(input.links@)
    } else if announced_bytes(input.files@) > u64::MAX {
        Some("附件总大小超过上传限制"@)
    } else if announced_bytes(input.files@) > max_upload_bytes {
        Some(too_large_message(max_upload_bytes))
    } else {
        None
    }
}

/// Checks an announced chunked import; the result is the announced total.
pub fn validate_chunked_import(input: &ChunkedImportInput, max_upload_bytes: u64) -> (r: Result<
    u64,
    AppError,
>)
    ensures
        match chunked_failure(*input, max_upload_bytes) {
            Some(m) => r matches Err(e) && (e matches AppError::BadRequest(t) && t@ == m),
            None => r == Ok::<u64, AppError>(announced_bytes(input.files@) as u64),
        },
{
    if input.files.len() == 0 {
        return Err(AppError::BadRequest(String::from_str("分片上传至少需要一个附件")));
    }
    if input.files.len() > 50 {
        return Err(AppError::BadRequest(String::from_str("单个任务最多上传 50 个附件")));
    }
    check_prompt_length(input.prompt.as_str())?;
    check_link_count(input.links.len())?;
    validate_links(input.links.as_slice())?;
    let mut total: u64 = 0;
    let mut i: usize = 0;
    proof {
        assert(input.files@.subrange(0, 0) =~= Seq::<ChunkedImportFileInput>::empty());
    }
    while i < input.files.len()
        invariant
            0 <= i <= input.files@.len(),
            total == announced_bytes(input.files@.subrange(0, i as int)),
            0 < input.files@.len() <= 50,
            input.prompt@.len() <= 4000,
            input.links@.len() <= 20,
            first_link_failure(input.links@) is None,
        decreases input.files.len() - i,
    {
        proof {
            let next = input.files@.subrange(0, i + 1);
            assert(next.drop_last() =~= input.files@.subrange(0, i as int));
            assert(next.last() == input.files@[i as int]);
        }
        match total.checked_add(input.files[i].size_bytes) {
            Some(t) => {
                total = t;
            },
            None => {
                proof {
                    lemma_announced_prefix(input.files@, i + 1);
                }
                return Err(AppError::BadRequest(String::from_str("附件总大小超过上传限制")));
            },
        }
        i += 1;
    }
    proof {
        assert(input.files@.subrange(0, input.files@.len() as int) =~= input.files@);
    }
    check_upload_total(total, max_upload_bytes)?;
    Ok(total)
}

proof fn lemma_announced_prefix(files: Seq<ChunkedImportFileInput>, i: int)
    requires
        0 <= i <= files.len(),
    ensures
        announced_bytes(files.subrange(0, i)) <= announced_bytes(files),
    decreases files.len() - i,
{
    if i < files.len() {
        lemma_announced_prefix(files, i + 1);
        assert(files.subrange(0, i + 1).drop_last() =~= files.subrange(0, i));
    } else {
        assert(files.subrange(0, i) =~= files);
    }
}

/// The media type stored for an announced file: the given one where it is
/// not blank, else `application/octet-stream`; at most 200 characters.
pub fn stored_mime_type(mime_type: &Option<String>) -> (r: String)
    ensures
        r@ == take(
            match opt_view(*mime_type) {
                Some(m) => if trim(m).len() > 0 {
                    m
                } else {
                    "application/octet-stream"@
                },
                None => "application/octet-stream"@,
            },
            200,
        ),
{
    let chosen = match mime_type {
        Some(m) => {
            let mc = chars_of(m.as_str());
            let t = trim_chars(mc.as_slice());
            if t.len() > 0 {
                mc
            } else {
                crate::text::lit("application/octet-stream")
            }
        },
        None => crate::text::lit("application/octet-stream"),
    };
    let taken = take_chars(chosen.as_slice(), 200);
    string_of(taken.as_slice())
}

/// The name and kind of a chunked job: the files' stored names decide.
pub fn chunked_source(names: &Vec<String>) -> (r: (String, String))
    requires
        names@.len() > 0,
    ensures
        r.0@ == (if names@.len() == 1 {
            names@[0]@
        } else {
            several_files_name(names@[0]@, names@.len() as nat)
        }),
        r.1@ == (if names@.len() == 1 && spec_is_zip_path(names@[0]@) {
            "zip"@
        } else {
            "mixed"@
        }),
{
    let name = if names.len() == 1 {
        names[0].clone()
    } else {
        several_files(names[0].as_str(), names.len())
    };
    let kind = if names.len() == 1 && is_zip_path(names[0].as_str()) {
        String::from_str("zip")
    } else {
        String::from_str("mixed")
    };
    (name, kind)
}

/// An announced file is `uploaded` from the start when it is empty.
pub fn announced_input_status(size_bytes: u64) -> (r: &'static str)
    ensures
        r@ == (if size_bytes == 0 {
            "uploaded"@
        } else {
            "uploading"@
        }),
{
    if size_bytes == 0 {
        "uploaded"
    } else {
        "uploading"
    }
}

} // verus!
