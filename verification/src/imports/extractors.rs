//! Decisions of the content extractors: which extractor a file gets, which
//! language a source file is in, and the text limits that every extractor keeps.

use vstd::prelude::*;

use vstd::utf8::encode_utf8;

use crate::checksum::{sha256_hex_bytes, sha256_of_text};
use crate::paths::{lower_extension, lower_extension_of, lower_file_name, lower_file_name_of};
use crate::text::{
    chars_of, eq_lit, is_blank, is_one_of, lit, one_of, push_all, push_str, slice_chars,
    starts_with, starts_with_lit, string_of, take, take_chars, trim,
};

verus! {

pub const MAX_TEXT_CHARS: usize = 131072;

pub const MAX_PLAIN_TEXT_BYTES: u64 = 262144;

pub const MAX_PDF_BYTES: u64 = 33554432;

pub const PLAIN_TEXT_NAMES: [&'static str; 8] = [
    "package.json",
    "cargo.toml",
    "requirements.txt",
    "pyproject.toml",
    "pom.xml",
    "build.gradle",
    "dockerfile",
    "makefile",
];

pub const PLAIN_TEXT_EXTENSIONS: [&'static str; 7] = ["md", "txt", "toml", "yaml", "yml", "json", "tex"];

/// Small read-mes, licences, manifests and text files get a plain-text preview.
pub open spec fn spec_should_extract_plain_text(path: Seq<char>, size_bytes: u64) -> bool {
    let name = lower_file_name(path);
    let extension = lower_extension(path);
    size_bytes <= MAX_PLAIN_TEXT_BYTES && (starts_with(name, "readme"@) || starts_with(
        name,
        "license"@,
    ) || one_of(name, PLAIN_TEXT_NAMES@) || one_of(extension, PLAIN_TEXT_EXTENSIONS@))
}

pub fn should_extract_plain_text(path: &str, size_bytes: u64) -> (r: bool)
    ensures
        r == spec_should_extract_plain_text(path@, size_bytes),
{
    if size_bytes > MAX_PLAIN_TEXT_BYTES {
        return false;
    }
    let chars = chars_of(path);
    let name = lower_file_name_of(chars.as_slice());
    let extension = lower_extension_of(chars.as_slice());
    starts_with_lit(name.as_slice(), "readme") || starts_with_lit(name.as_slice(), "license")
        || is_one_of(name.as_slice(), &PLAIN_TEXT_NAMES) || is_one_of(
        extension.as_slice(),
        &PLAIN_TEXT_EXTENSIONS,
    )
}

/// The programming language of a source file by its lower-case extension.
pub open spec fn spec_language_for_extension(e: Seq<char>) -> Option<&'static str> {
    if e == "rs"@ {
        Some("Rust")
    } else if e == "ts"@ || e == "tsx"@ {
        Some("TypeScript")
    } else if e == "js"@ || e == "jsx"@ || e == "mjs"@ || e == "cjs"@ {
        Some("JavaScript")
    } else if e == "py"@ {
        Some("Python")
    } else if e == "java"@ {
        Some("Java")
    } else if e == "kt"@ || e == "kts"@ {
        Some("Kotlin")
    } else if e == "go"@ {
        Some("Go")
    } else if e == "c"@ || e == "h"@ {
        Some("C")
    } else if e == "cpp"@ || e == "hpp"@ {
        Some("C++")
    } else if e == "cs"@ {
        Some("C#")
    } else if e == "php"@ {
        Some("PHP")
    } else if e == "rb"@ {
        Some("Ruby")
    } else if e == "swift"@ {
        Some("Swift")
    } else if e == "dart"@ {
        Some("Dart")
    } else if e == "vue"@ {
        Some("Vue")
    } else if e == "svelte"@ {
        Some("Svelte")
    } else if e == "html"@ {
        Some("HTML")
    } else if e == "css"@ || e == "scss"@ {
        Some("CSS")
    } else if e == "sql"@ {
        Some("SQL")
    } else if e == "ino"@ {
        Some("Arduino")
    } else {
        None
    }
}

pub fn language_for_extension(extension: &str) -> (r: Option<&'static str>)
    ensures
        r == spec_language_for_extension(extension@),
{
    let v = chars_of(extension);
    let e = v.as_slice();
    if eq_lit(e, "rs") {
        Some("Rust")
    } else if eq_lit(e, "ts") || eq_lit(e, "tsx") {
        Some("TypeScript")
    } else if eq_lit(e, "js") || eq_lit(e, "jsx") || eq_lit(e, "mjs") || eq_lit(e, "cjs") {
        Some("JavaScript")
    } else if eq_lit(e, "py") {
        Some("Python")
    } else if eq_lit(e, "java") {
        Some("Java")
    } else if eq_lit(e, "kt") || eq_lit(e, "kts") {
        Some("Kotlin")
    } else if eq_lit(e, "go") {
        Some("Go")
    } else if eq_lit(e, "c") || eq_lit(e, "h") {
        Some("C")
    } else if eq_lit(e, "cpp") || eq_lit(e, "hpp") {
        Some("C++")
    } else if eq_lit(e, "cs") {
        Some("C#")
    } else if eq_lit(e, "php") {
        Some("PHP")
    } else if eq_lit(e, "rb") {
        Some("Ruby")
    } else if eq_lit(e, "swift") {
        Some("Swift")
    } else if eq_lit(e, "dart") {
        Some("Dart")
    } else if eq_lit(e, "vue") {
        Some("Vue")
    } else if eq_lit(e, "svelte") {
        Some("Svelte")
    } else if eq_lit(e, "html") {
        Some("HTML")
    } else if eq_lit(e, "css") || eq_lit(e, "scss") {
        Some("CSS")
    } else if eq_lit(e, "sql") {
        Some("SQL")
    } else if eq_lit(e, "ino") {
        Some("Arduino")
    } else {
        None
    }
}

/// The ASCII digits of a text, in order.
pub open spec fn digits(s: Seq<char>) -> Seq<char>
    decreases s.len(),
{
    if s.len() == 0 {
        Seq::empty()
    } else if '0' <= s.last() && s.last() <= '9' {
        digits(s.drop_last()).push(s.last())
    } else {
        digits(s.drop_last())
    }
}

/// The number that a string of decimal digits writes.
pub open spec fn decimal_value(d: Seq<char>) -> nat
    decreases d.len(),
{
    if d.len() == 0 {
        0
    } else {
        decimal_value(d.drop_last()) * 10 + ((d.last() as u32) - ('0' as u32)) as nat
    }
}

/// The number that the digits of a part name write (`slide12.xml` is 12);
/// `usize::MAX` where there are none or the number does not fit, so that such
/// names sort last.
pub open spec fn spec_numeric_suffix(s: Seq<char>) -> usize {
    let d = digits(s);
    if d.len() == 0 || decimal_value(d) > usize::MAX {
        usize::MAX
    } else {
        decimal_value(d) as usize
    }
}

pub fn numeric_suffix(value: &str) -> (r: usize)
    ensures
        r == spec_numeric_suffix(value@),
{
    let s = chars_of(value);
    let mut count: usize = 0;
    let mut acc: usize = 0;
    let mut overflow = false;
    let mut i: usize = 0;
    while i < s.len()
        invariant
            0 <= i <= s@.len(),
            count == digits(s@.subrange(0, i as int)).len(),
            count <= i,
            overflow ==> decimal_value(digits(s@.subrange(0, i as int))) > usize::MAX,
            !overflow ==> acc == decimal_value(digits(s@.subrange(0, i as int))),
        decreases s.len() - i,
    {
        let c = s[i];
        let ghost before = digits(s@.subrange(0, i as int));
        proof {
            let next = s@.subrange(0, i + 1);
            assert(next.drop_last() =~= s@.subrange(0, i as int));
            assert(next.last() == c);
        }
        if '0' <= c && c <= '9' {
            let d: usize = (c as u32 - '0' as u32) as usize;
            proof {
                let after = before.push(c);
                assert(after.drop_last() =~= before);
                assert(decimal_value(after) == decimal_value(before) * 10 + d);
                if overflow {
                    assert(decimal_value(before) * 10 + d >= decimal_value(before)) by (nonlinear_arith);
                }
            }
            if !overflow {
                if acc <= (usize::MAX - d) / 10 {
                    proof {
                        assert(acc * 10 + d <= usize::MAX) by (nonlinear_arith)
                            requires
                                acc <= (usize::MAX - d) / 10,
                                d <= 9,
                        ;
                    }
                    acc = acc * 10 + d;
                } else {
                    proof {
                        assert(acc * 10 + d > usize::MAX) by (nonlinear_arith)
                            requires
                                acc > (usize::MAX - d) / 10,
                                d <= 9,
                        ;
                    }
                    overflow = true;
                }
            }
            count = count + 1;
        }
        i += 1;
    }
    proof {
        assert(s@.subrange(0, s@.len() as int) =~= s@);
    }
    if count == 0 || overflow {
        usize::MAX
    } else {
        acc
    }
}

/// `target` grows by the first characters of `value`, so that it holds at most
/// `max_chars` characters where it held fewer.
pub fn append_limited(target: &mut Vec<char>, value: &[char], max_chars: usize)
    ensures
        final(target)@ == old(target)@ + take(
            value@,
            if old(target)@.len() < max_chars {
                max_chars - old(target)@.len()
            } else {
                0
            },
        ),
{
    let remaining: usize = if target.len() < max_chars {
        max_chars - target.len()
    } else {
        0
    };
    let part = take_chars(value, remaining);
    push_all(target, part.as_slice());
}

/// The first `max_chars` characters.
pub fn truncate_chars(value: &str, max_chars: usize) -> (r: String)
    ensures
        r@ == take(value@, max_chars as int),
{
    let v = chars_of(value);
    let t = take_chars(v.as_slice(), max_chars);
    string_of(t.as_slice())
}

/// The text, unless it is blank.
pub fn non_empty(value: String) -> (r: Option<String>)
    ensures
        r is Some <==> trim(value@).len() > 0,
        r matches Some(v) ==> v@ == value@,
{
    let v = chars_of(value.as_str());
    if is_blank(v.as_slice()) {
        None
    } else {
        Some(value)
    }
}

/// Which extractor a file of the given kind and size is sent to.
#[derive(Clone, Copy, Debug, PartialEq, Eq)]
pub enum ExtractorChoice {
    Docx,
    Pptx,
    Pdf,
    PdfTooLarge,
    VideoProbe,
    PlainText,
    IndexOnly,
}

pub const VIDEO_EXTENSIONS: [&'static str; 7] = ["mp4", "mov", "mkv", "avi", "webm", "m4v", "wmv"];

/// The extensions that have an extractor of their own.
pub open spec fn extracted_extension(e: Seq<char>) -> bool {
    e == "docx"@ || e == "pptx"@ || e == "pdf"@ || one_of(e, VIDEO_EXTENSIONS@)
}

proof fn lemma_extension_literals_differ()
    ensures
        "pptx"@ != "docx"@,
        !one_of("docx"@, VIDEO_EXTENSIONS@),
        !one_of("pptx"@, VIDEO_EXTENSIONS@),
        !one_of("pdf"@, VIDEO_EXTENSIONS@),
        "pdf"@ != "docx"@,
        "pdf"@ != "pptx"@,
{
    reveal_strlit("docx");
    reveal_strlit("pptx");
    reveal_strlit("pdf");
    reveal_strlit("mp4");
    reveal_strlit("mov");
    reveal_strlit("mkv");
    reveal_strlit("avi");
    reveal_strlit("webm");
    reveal_strlit("m4v");
    reveal_strlit("wmv");
    assert("pptx"@[0] != "docx"@[0]);
    assert("pdf"@.len() != "pptx"@.len());
    assert forall|k: int| 0 <= k < VIDEO_EXTENSIONS@.len() implies #[trigger] VIDEO_EXTENSIONS@[k]@
        != "docx"@ && VIDEO_EXTENSIONS@[k]@ != "pptx"@ && VIDEO_EXTENSIONS@[k]@ != "pdf"@ by {
        assert("docx"@[0] == 'd' && "pptx"@[0] == 'p' && "pdf"@[0] == 'p');
        assert("pdf"@[1] == 'd' && "pptx"@[1] == 'p');
        if k == 0 {
            assert(VIDEO_EXTENSIONS@[k]@[0] == 'm');
        } else if k == 1 {
            assert(VIDEO_EXTENSIONS@[k]@[0] == 'm');
        } else if k == 2 {
            assert(VIDEO_EXTENSIONS@[k]@[0] == 'm');
        } else if k == 3 {
            assert(VIDEO_EXTENSIONS@[k]@[0] == 'a');
        } else if k == 4 {
            assert(VIDEO_EXTENSIONS@[k]@[0] == 'w');
        } else if k == 5 {
            assert(VIDEO_EXTENSIONS@[k]@[0] == 'm');
        } else {
            assert(VIDEO_EXTENSIONS@[k]@[0] == 'w');
        }
    }
}

pub open spec fn spec_extractor_for(relative_path: Seq<char>, size_bytes: u64) -> ExtractorChoice {
    let e = lower_extension(relative_path);
    if e == "docx"@ {
        ExtractorChoice::Docx
    } else if e == "pptx"@ {
        ExtractorChoice::Pptx
    } else if e == "pdf"@ && size_bytes <= MAX_PDF_BYTES {
        ExtractorChoice::Pdf
    } else if e == "pdf"@ {
        ExtractorChoice::PdfTooLarge
    } else if one_of(e, VIDEO_EXTENSIONS@) {
        ExtractorChoice::VideoProbe
    } else if spec_should_extract_plain_text(relative_path, size_bytes) {
        ExtractorChoice::PlainText
    } else {
        ExtractorChoice::IndexOnly
    }
}

/// The extractor that `extract_artifact` uses for a file.
pub fn extractor_for(relative_path: &str, size_bytes: u64) -> (r: ExtractorChoice)
    ensures
        r == spec_extractor_for(relative_path@, size_bytes),
        // Office files, PDF files and videos go by their lower-case extension.
        lower_extension(relative_path@) == "docx"@ ==> r == ExtractorChoice::Docx,
        lower_extension(relative_path@) == "pptx"@ ==> r == ExtractorChoice::Pptx,
        lower_extension(relative_path@) == "pdf"@ && size_bytes <= MAX_PDF_BYTES ==> r
            == ExtractorChoice::Pdf,
        lower_extension(relative_path@) == "pdf"@ && size_bytes > MAX_PDF_BYTES ==> r
            == ExtractorChoice::PdfTooLarge,
        one_of(lower_extension(relative_path@), VIDEO_EXTENSIONS@) ==> r == ExtractorChoice::VideoProbe,
        // Any other file gets a plain-text preview where it qualifies, and is
        // only indexed otherwise.
        !extracted_extension(lower_extension(relative_path@)) ==> (r == ExtractorChoice::PlainText
            <==> spec_should_extract_plain_text(relative_path@, size_bytes)),
        !extracted_extension(lower_extension(relative_path@)) ==> (r == ExtractorChoice::PlainText || r
            == ExtractorChoice::IndexOnly),
{
    proof {
        lemma_extension_literals_differ();
    }
    let chars = chars_of(relative_path);
    let e = lower_extension_of(chars.as_slice());
    if eq_lit(e.as_slice(), "docx") {
        ExtractorChoice::Docx
    } else if eq_lit(e.as_slice(), "pptx") {
        ExtractorChoice::Pptx
    } else if eq_lit(e.as_slice(), "pdf") && size_bytes <= MAX_PDF_BYTES {
        ExtractorChoice::Pdf
    } else if eq_lit(e.as_slice(), "pdf") {
        ExtractorChoice::PdfTooLarge
    } else if is_one_of(e.as_slice(), &VIDEO_EXTENSIONS) {
        ExtractorChoice::VideoProbe
    } else if should_extract_plain_text(relative_path, size_bytes) {
        ExtractorChoice::PlainText
    } else {
        ExtractorChoice::IndexOnly
    }
}

/// The extractor name that a plain-text preview is recorded under.
pub fn plain_text_extractor(kind: &str) -> (r: &'static str)
    ensures
        r == (if kind@ == "code"@ {
            "source_manifest"
        } else {
            "text_preview"
        }),
{
    let k = chars_of(kind);
    if eq_lit(k.as_slice(), "code") {
        "source_manifest"
    } else {
        "text_preview"
    }
}

/// Which external tool renders a preview image of a file, if any.
#[derive(Clone, Copy, Debug, PartialEq, Eq)]
pub enum PreviewTool {
    VideoThumbnail,
    PdfFirstPage,
}

pub open spec fn spec_preview_tool(kind: Seq<char>, relative_path: Seq<char>) -> Option<PreviewTool> {
    if kind == "video"@ {
        Some(PreviewTool::VideoThumbnail)
    } else if lower_extension(relative_path) == "pdf"@ {
        Some(PreviewTool::PdfFirstPage)
    } else {
        None
    }
}

/// Videos get a thumbnail and PDF files their first page; nothing else.
pub fn preview_tool(kind: &str, relative_path: &str) -> (r: Option<PreviewTool>)
    ensures
        r == spec_preview_tool(kind@, relative_path@),
{
    let k = chars_of(kind);
    if eq_lit(k.as_slice(), "video") {
        return Some(PreviewTool::VideoThumbnail);
    }
    let chars = chars_of(relative_path);
    let e = lower_extension_of(chars.as_slice());
    if eq_lit(e.as_slice(), "pdf") {
        Some(PreviewTool::PdfFirstPage)
    } else {
        None
    }
}

/// The file a generated preview is written to: `preview-`, the first 16
/// hexadecimal digits of the SHA-256 checksum of the file's relative path,
/// and `.jpg`.
pub fn preview_file_name(relative_path: &str) -> (r: String)
    ensures
        r@ == "preview-"@ + sha256_hex_bytes(encode_utf8(relative_path@)).subrange(0, 16) + ".jpg"@,
{
    let digest = sha256_of_text(relative_path);
    let hex = chars_of(digest.as_str());
    let mut out = lit("preview-");
    let head = slice_chars(hex.as_slice(), 0, 16);
    push_all(&mut out, head.as_slice());
    push_str(&mut out, ".jpg");
    string_of(out.as_slice())
}

} // verus!
