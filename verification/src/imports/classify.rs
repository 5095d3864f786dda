//! Classification of imported files by name, and of whole projects by the
//! words that occur in their material.

use vstd::prelude::*;

use crate::paths::{
    dot_dot, file_stem, lower_extension, lower_extension_of, lower_file_name, lower_file_name_of,
    meaningful, meaningful_pieces, path_file_stem, path_pieces,
};
use crate::text::{
    ascii_lowercase, chars_of, contains_any, contains_any_of, eq_lit, is_one_of, one_of, string_of,
    to_ascii_lowercase,
};

verus! {

pub const PRESENTATION_EXTENSIONS: [&'static str; 4] = ["ppt", "pptx", "key", "odp"];

pub const DOCUMENT_EXTENSIONS: [&'static str; 8] = [
    "pdf",
    "doc",
    "docx",
    "odt",
    "rtf",
    "md",
    "txt",
    "tex",
];

pub const VIDEO_EXTENSIONS: [&'static str; 7] = ["mp4", "mov", "mkv", "avi", "webm", "m4v", "wmv"];

pub const IMAGE_EXTENSIONS: [&'static str; 8] = [
    "png",
    "jpg",
    "jpeg",
    "gif",
    "webp",
    "svg",
    "bmp",
    "tiff",
];

pub const ARCHIVE_EXTENSIONS: [&'static str; 7] = ["zip", "rar", "7z", "tar", "gz", "bz2", "xz"];

pub const DATA_EXTENSIONS: [&'static str; 8] = [
    "csv",
    "tsv",
    "jsonl",
    "parquet",
    "sqlite",
    "db",
    "xlsx",
    "xls",
];

pub const SOURCE_EXTENSIONS: [&'static str; 35] = [
    "rs",
    "ts",
    "tsx",
    "js",
    "jsx",
    "mjs",
    "cjs",
    "py",
    "java",
    "kt",
    "kts",
    "go",
    "c",
    "h",
    "cpp",
    "hpp",
    "cs",
    "php",
    "rb",
    "swift",
    "dart",
    "vue",
    "svelte",
    "html",
    "css",
    "scss",
    "sql",
    "sh",
    "ps1",
    "bat",
    "toml",
    "yaml",
    "yml",
    "xml",
    "gradle",
];

pub const SOURCE_MANIFESTS: [&'static str; 9] = [
    "dockerfile",
    "makefile",
    "cargo.lock",
    "package-lock.json",
    "pnpm-lock.yaml",
    "yarn.lock",
    "requirements.txt",
    "pyproject.toml",
    "pom.xml",
];

/// A source file by its (lower-case) extension.
pub open spec fn spec_is_source_extension(extension: Seq<char>) -> bool {
    one_of(extension, SOURCE_EXTENSIONS@) || extension == "ino"@
}

pub fn is_source_extension(extension: &[char]) -> (r: bool)
    ensures
        r == spec_is_source_extension(extension@),
{
    is_one_of(extension, &SOURCE_EXTENSIONS) || is_one_of(extension, &["ino"])
}

/// A build or dependency manifest by its (lower-case) file name.
pub open spec fn spec_is_source_manifest(name: Seq<char>) -> bool {
    one_of(name, SOURCE_MANIFESTS@)
}

pub fn is_source_manifest(name: &[char]) -> (r: bool)
    ensures
        r == spec_is_source_manifest(name@),
{
    is_one_of(name, &SOURCE_MANIFESTS)
}

/// The extension is in one of the lists that come before code.
pub open spec fn in_kind_lists(extension: Seq<char>) -> bool {
    ||| one_of(extension, PRESENTATION_EXTENSIONS@)
    ||| one_of(extension, DOCUMENT_EXTENSIONS@)
    ||| one_of(extension, VIDEO_EXTENSIONS@)
    ||| one_of(extension, IMAGE_EXTENSIONS@)
    ||| one_of(extension, ARCHIVE_EXTENSIONS@)
    ||| one_of(extension, DATA_EXTENSIONS@)
}

/// The kind of an imported file, decided by its extension and then its name.
pub open spec fn spec_artifact_kind(path: Seq<char>) -> &'static str {
    let extension = lower_extension(path);
    let name = lower_file_name(path);
    if one_of(extension, PRESENTATION_EXTENSIONS@) {
        "presentation"
    } else if one_of(extension, DOCUMENT_EXTENSIONS@) {
        "document"
    } else if one_of(extension, VIDEO_EXTENSIONS@) {
        "video"
    } else if one_of(extension, IMAGE_EXTENSIONS@) {
        "image"
    } else if one_of(extension, ARCHIVE_EXTENSIONS@) {
        "archive"
    } else if one_of(extension, DATA_EXTENSIONS@) {
        "data"
    } else if spec_is_source_extension(extension) || spec_is_source_manifest(name) {
        "code"
    } else {
        "other"
    }
}

/// Classifies an imported file.
pub fn artifact_kind(path: &str) -> (r: &'static str)
    ensures
        r == spec_artifact_kind(path@),
        // The extension decides first, list by list in this order.
        one_of(lower_extension(path@), PRESENTATION_EXTENSIONS@) ==> r@ == "presentation"@,
        !one_of(lower_extension(path@), PRESENTATION_EXTENSIONS@) && one_of(
            lower_extension(path@),
            DOCUMENT_EXTENSIONS@,
        ) ==> r@ == "document"@,
        !one_of(lower_extension(path@), PRESENTATION_EXTENSIONS@) && !one_of(
            lower_extension(path@),
            DOCUMENT_EXTENSIONS@,
        ) && one_of(lower_extension(path@), VIDEO_EXTENSIONS@) ==> r@ == "video"@,
        !one_of(lower_extension(path@), PRESENTATION_EXTENSIONS@) && !one_of(
            lower_extension(path@),
            DOCUMENT_EXTENSIONS@,
        ) && !one_of(lower_extension(path@), VIDEO_EXTENSIONS@) && one_of(
            lower_extension(path@),
            IMAGE_EXTENSIONS@,
        ) ==> r@ == "image"@,
        !one_of(lower_extension(path@), PRESENTATION_EXTENSIONS@) && !one_of(
            lower_extension(path@),
            DOCUMENT_EXTENSIONS@,
        ) && !one_of(lower_extension(path@), VIDEO_EXTENSIONS@) && !one_of(
            lower_extension(path@),
            IMAGE_EXTENSIONS@,
        ) && one_of(lower_extension(path@), ARCHIVE_EXTENSIONS@) ==> r@ == "archive"@,
        !one_of(lower_extension(path@), PRESENTATION_EXTENSIONS@) && !one_of(
            lower_extension(path@),
            DOCUMENT_EXTENSIONS@,
        ) && !one_of(lower_extension(path@), VIDEO_EXTENSIONS@) && !one_of(
            lower_extension(path@),
            IMAGE_EXTENSIONS@,
        ) && !one_of(lower_extension(path@), ARCHIVE_EXTENSIONS@) && one_of(
            lower_extension(path@),
            DATA_EXTENSIONS@,
        ) ==> r@ == "data"@,
        // Past those lists, source extensions and build or dependency
        // manifests are code, and anything else is other.
        !in_kind_lists(lower_extension(path@)) ==> (r@ == "code"@ <==> (one_of(
            lower_extension(path@),
            SOURCE_EXTENSIONS@,
        ) || lower_extension(path@) == "ino"@ || one_of(lower_file_name(path@), SOURCE_MANIFESTS@))),
        !in_kind_lists(lower_extension(path@)) ==> (r@ == "code"@ || r@ == "other"@),
{
    proof {
        reveal_strlit("code");
        reveal_strlit("other");
        assert("other"@.len() != "code"@.len());
        assert("other"@ != "code"@);
    }
    let chars = chars_of(path);
    let name = lower_file_name_of(chars.as_slice());
    let extension = lower_extension_of(chars.as_slice());
    let e = extension.as_slice();
    if is_one_of(e, &PRESENTATION_EXTENSIONS) {
        "presentation"
    } else if is_one_of(e, &DOCUMENT_EXTENSIONS) {
        "document"
    } else if is_one_of(e, &VIDEO_EXTENSIONS) {
        "video"
    } else if is_one_of(e, &IMAGE_EXTENSIONS) {
        "image"
    } else if is_one_of(e, &ARCHIVE_EXTENSIONS) {
        "archive"
    } else if is_one_of(e, &DATA_EXTENSIONS) {
        "data"
    } else if is_source_extension(e) || is_source_manifest(name.as_slice()) {
        "code"
    } else {
        "other"
    }
}

} // verus!

verus! {

/// The label of an artifact kind in the Chinese summary sentence.
pub open spec fn spec_kind_label(kind: Seq<char>) -> &'static str {
    if kind == "code"@ {
        "源码文件"
    } else if kind == "document"@ {
        "文档"
    } else if kind == "presentation"@ {
        "演示文件"
    } else if kind == "video"@ {
        "视频"
    } else if kind == "image"@ {
        "图片"
    } else if kind == "archive"@ {
        "压缩文件"
    } else if kind == "data"@ {
        "数据文件"
    } else {
        "其他文件"
    }
}

pub fn kind_label(kind: &[char]) -> (r: &'static str)
    ensures
        r == spec_kind_label(kind@),
{
    if eq_lit(kind, "code") {
        "源码文件"
    } else if eq_lit(kind, "document") {
        "文档"
    } else if eq_lit(kind, "presentation") {
        "演示文件"
    } else if eq_lit(kind, "video") {
        "视频"
    } else if eq_lit(kind, "image") {
        "图片"
    } else if eq_lit(kind, "archive") {
        "压缩文件"
    } else if eq_lit(kind, "data") {
        "数据文件"
    } else {
        "其他文件"
    }
}

pub const COVER_WORDS: [&'static str; 4] = ["cover", "poster", "封面", "海报"];

pub const SCREENSHOT_WORDS: [&'static str; 5] = ["screenshot", "screen", "截图", "demo", "展示"];

/// How well an image's name suggests a project cover: 3 for covers and
/// posters, 2 for screenshots and demos, 1 otherwise.
pub open spec fn spec_cover_candidate_rank(path: Seq<char>) -> u8 {
    let name = match file_stem(path) {
        Some(stem) => ascii_lowercase(stem),
        None => Seq::empty(),
    };
    if contains_any(name, COVER_WORDS@) {
        3
    } else if contains_any(name, SCREENSHOT_WORDS@) {
        2
    } else {
        1
    }
}

pub fn cover_candidate_rank(path: &str) -> (r: u8)
    ensures
        r == spec_cover_candidate_rank(path@),
        1 <= r <= 3,
{
    let chars = chars_of(path);
    let name = match path_file_stem(chars.as_slice()) {
        Some(stem) => to_ascii_lowercase(stem.as_slice()),
        None => Vec::new(),
    };
    if contains_any_of(name.as_slice(), &COVER_WORDS) {
        3
    } else if contains_any_of(name.as_slice(), &SCREENSHOT_WORDS) {
        2
    } else {
        1
    }
}

pub const HARDWARE_WORDS: [&'static str; 7] = [
    "arduino",
    "esp32",
    "stm32",
    "kicad",
    "物联网",
    "嵌入式",
    "机器人",
];

pub const MEDIA_WORDS: [&'static str; 7] = [
    "unity",
    "unreal",
    "blender",
    ".blend",
    "vr",
    "动画",
    "数字展陈",
];

pub const AI_WORDS: [&'static str; 10] = [
    "pytorch",
    "tensorflow",
    "transformers",
    "opencv",
    "yolo",
    "langchain",
    "machine learning",
    "人工智能",
    "大数据",
    "模型训练",
];

pub const RESEARCH_WORDS: [&'static str; 5] = ["thesis", "paper", "论文", "实验研究", "latex"];

/// The primary category that the (lower-cased) material suggests: hardware,
/// media and AI words win in that order; research words count only with fewer
/// than five code files; everything else is traditional software.
pub open spec fn spec_infer_category(searchable: Seq<char>, code_count: nat) -> &'static str {
    if contains_any(searchable, HARDWARE_WORDS@) {
        "智能硬件"
    } else if contains_any(searchable, MEDIA_WORDS@) {
        "数字媒体"
    } else if contains_any(searchable, AI_WORDS@) {
        "AI 软件"
    } else if contains_any(searchable, RESEARCH_WORDS@) && code_count < 5 {
        "研究成果"
    } else {
        "传统软件"
    }
}

/// The category that material suggests: hardware words decide first, then
/// media words, then AI words; research words count only with fewer than
/// five code files; everything else is traditional software.
pub proof fn law_category_order(searchable: Seq<char>, code_count: nat)
    ensures
        contains_any(searchable, HARDWARE_WORDS@) ==> spec_infer_category(searchable, code_count)@
            == "智能硬件"@,
        !contains_any(searchable, HARDWARE_WORDS@) && contains_any(searchable, MEDIA_WORDS@)
            ==> spec_infer_category(searchable, code_count)@ == "数字媒体"@,
        !contains_any(searchable, HARDWARE_WORDS@) && !contains_any(searchable, MEDIA_WORDS@)
            && contains_any(searchable, AI_WORDS@) ==> spec_infer_category(searchable, code_count)@
            == "AI 软件"@,
        !contains_any(searchable, HARDWARE_WORDS@) && !contains_any(searchable, MEDIA_WORDS@)
            && !contains_any(searchable, AI_WORDS@) && contains_any(searchable, RESEARCH_WORDS@)
            && code_count < 5 ==> spec_infer_category(searchable, code_count)@ == "研究成果"@,
        !contains_any(searchable, HARDWARE_WORDS@) && !contains_any(searchable, MEDIA_WORDS@)
            && !contains_any(searchable, AI_WORDS@) && !(contains_any(searchable, RESEARCH_WORDS@)
            && code_count < 5) ==> spec_infer_category(searchable, code_count)@ == "传统软件"@,
{
}

pub fn infer_category(searchable: &[char], code_count: usize) -> (r: &'static str)
    ensures
        r == spec_infer_category(searchable@, code_count as nat),
        // Hardware words decide first, then media words, then AI words.
        contains_any(searchable@, HARDWARE_WORDS@) ==> r@ == "智能硬件"@,
        !contains_any(searchable@, HARDWARE_WORDS@) && contains_any(searchable@, MEDIA_WORDS@) ==> r@
            == "数字媒体"@,
        !contains_any(searchable@, HARDWARE_WORDS@) && !contains_any(searchable@, MEDIA_WORDS@)
            && contains_any(searchable@, AI_WORDS@) ==> r@ == "AI 软件"@,
        // Research words count only with fewer than five code files.
        !contains_any(searchable@, HARDWARE_WORDS@) && !contains_any(searchable@, MEDIA_WORDS@)
            && !contains_any(searchable@, AI_WORDS@) && contains_any(searchable@, RESEARCH_WORDS@)
            && code_count < 5 ==> r@ == "研究成果"@,
        // Everything else is traditional software.
        !contains_any(searchable@, HARDWARE_WORDS@) && !contains_any(searchable@, MEDIA_WORDS@)
            && !contains_any(searchable@, AI_WORDS@) && !(contains_any(searchable@, RESEARCH_WORDS@)
            && code_count < 5) ==> r@ == "传统软件"@,
{
    if contains_any_of(searchable, &HARDWARE_WORDS) {
        "智能硬件"
    } else if contains_any_of(searchable, &MEDIA_WORDS) {
        "数字媒体"
    } else if contains_any_of(searchable, &AI_WORDS) {
        "AI 软件"
    } else if contains_any_of(searchable, &RESEARCH_WORDS) && code_count < 5 {
        "研究成果"
    } else {
        "传统软件"
    }
}

pub const GENERATED_DIRECTORIES: [&'static str; 6] = [
    ".git",
    "node_modules",
    "target",
    ".venv",
    "venv",
    "__pycache__",
];

/// A plain name component that names a generated or dependency directory.
pub open spec fn is_generated_component(c: Seq<char>) -> bool {
    c != dot_dot() && one_of(ascii_lowercase(c), GENERATED_DIRECTORIES@)
}

/// The first component of a path that names a generated directory (`.git`,
/// `node_modules`, ...), as written in the path.
pub open spec fn spec_ignored_generated_directory(path: Seq<char>) -> Option<Seq<char>> {
    let comps = meaningful(path_pieces(path));
    if exists|k: int| 0 <= k < comps.len() && is_generated_component(#[trigger] comps[k]) {
        let k = choose|k: int|
            0 <= k < comps.len() && is_generated_component(#[trigger] comps[k]) && forall|j: int|
                0 <= j < k ==> !is_generated_component(#[trigger] comps[j]);
        Some(comps[k])
    } else {
        None
    }
}

pub fn ignored_generated_directory(path: &str) -> (r: Option<String>)
    ensures
        match r {
            Some(s) => spec_ignored_generated_directory(path@) == Some(s@),
            None => spec_ignored_generated_directory(path@) is None,
        },
{
    let chars = chars_of(path);
    let comps = meaningful_pieces(chars.as_slice());
    let ghost all = meaningful(path_pieces(path@));
    let mut k: usize = 0;
    while k < comps.len()
        invariant
            0 <= k <= comps@.len(),
            comps@.len() == all.len(),
            all == meaningful(path_pieces(path@)),
            forall|j: int| 0 <= j < comps@.len() ==> #[trigger] comps@[j]@ == all[j],
            forall|j: int| 0 <= j < k ==> !is_generated_component(#[trigger] all[j]),
        decreases comps.len() - k,
    {
        let c = &comps[k];
        let lower = to_ascii_lowercase(c.as_slice());
        let parent = eq_lit(c.as_slice(), "..");
        proof {
            reveal_strlit("..");
            assert(".."@ =~= dot_dot());
            assert(c@ == all[k as int]);
        }
        if !parent && is_one_of(lower.as_slice(), &GENERATED_DIRECTORIES) {
            proof {
                assert(is_generated_component(all[k as int]));
                let kk = choose|kk: int|
                    0 <= kk < all.len() && is_generated_component(#[trigger] all[kk]) && forall|
                        j: int,
                    |
                        0 <= j < kk ==> !is_generated_component(#[trigger] all[j]);
                assert(forall|j: int| 0 <= j < k ==> !is_generated_component(#[trigger] all[j]));
                if kk < k {
                    assert(!is_generated_component(all[kk]));
                } else if kk > k {
                    assert(!is_generated_component(all[k as int]));
                }
            }
            return Some(string_of(c.as_slice()));
        }
        k += 1;
    }
    None
}

} // verus!
