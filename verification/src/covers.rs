//! Project covers: which resource makes the best cover, the text cover that
//! stands in when none does, and how a cover chosen by a member is checked.

use vstd::prelude::*;

use crate::error::AppError;
use crate::projects::{
    nonblank_trimmed, normalize_keywords, opt_view, parse_keywords, strings_view, take_items,
    json_decode_strings, COVER_MODES,
};
use crate::text::{
    chars_of, contains, contains_lit, ends_with, ends_with_lit, eq_lit, is_one_of, one_of,
    replace_all, replace_chars, string_of, take, take_chars, to_lowercase, trim, trim_chars,
    unicode_lowercase,
};

verus! {

/// A cover as the API shows it. The confidence is in percent.
#[derive(Clone, Debug)]
pub struct GeneratedCover {
    pub cover_mode: String,
    pub cover_resource_id: Option<String>,
    pub cover_resource_url: Option<String>,
    pub cover_title: String,
    pub cover_subtitle: String,
    pub cover_keywords: Vec<String>,
    pub cover_tone: String,
    pub confidence_percent: u32,
}

/// A cover chosen by a member.
#[derive(Clone, Debug)]
pub struct CoverPatch {
    pub cover_mode: String,
    pub cover_resource_id: Option<String>,
    pub cover_title: String,
    pub cover_subtitle: String,
    pub cover_keywords: Vec<String>,
    pub cover_tone: String,
}

/// What a cover is made from: the project as stored. The stored confidence
/// is in percent.
#[derive(Clone, Debug)]
pub struct CoverProjectRow {
    pub id: String,
    pub name: String,
    pub summary: String,
    pub primary_category: String,
    pub cover_mode: String,
    pub cover_resource_id: Option<String>,
    pub cover_title: Option<String>,
    pub cover_subtitle: Option<String>,
    pub cover_keywords: String,
    pub cover_tone: String,
    pub cover_confidence_percent: Option<u32>,
}

/// A resource of the project, as a cover candidate.
#[derive(Clone, Debug)]
pub struct CoverResourceRow {
    pub id: String,
    pub resource_type: String,
    pub url: Option<String>,
}

// ----------------------------------------------------------------------------
// Choosing a resource
// ----------------------------------------------------------------------------

pub const IMAGE_EXTENSIONS: [&'static str; 6] = [".png", ".jpg", ".jpeg", ".webp", ".gif", ".avif"];

pub open spec fn is_url_separator(c: char) -> bool {
    c == '?' || c == '#'
}

/// `k` is the position of the first `?` or `#` of `s`.
pub open spec fn first_separator(s: Seq<char>, k: int) -> bool {
    &&& 0 <= k < s.len()
    &&& is_url_separator(s[k])
    &&& forall|j: int| 0 <= j < k ==> !is_url_separator(#[trigger] s[j])
}

/// A URL without its query and fragment: what comes before the first `?` or `#`.
pub open spec fn url_base(s: Seq<char>) -> Seq<char> {
    if exists|k: int| first_separator(s, k) {
        s.subrange(0, choose|k: int| first_separator(s, k))
    } else {
        s
    }
}

/// The URL, without query and fragment, names an image file.
pub open spec fn spec_is_image_url(url: Seq<char>) -> bool {
    exists|k: int| 0 <= k < IMAGE_EXTENSIONS@.len() && ends_with(url_base(url), #[trigger] IMAGE_EXTENSIONS@[k]@)
}

pub fn is_image_url(url: &str) -> (r: bool)
    ensures
        r == spec_is_image_url(url@),
{
    let s = chars_of(url);
    let mut end: usize = s.len();
    let mut i: usize = 0;
    while i < s.len()
        invariant_except_break
            end == s@.len(),
        invariant
            0 <= i <= s@.len(),
            s@ == url@,
            forall|j: int| 0 <= j < i ==> !is_url_separator(#[trigger] s@[j]),
        ensures
            end <= s@.len(),
            end < s@.len() ==> is_url_separator(s@[end as int]) && end == i,
            end == s@.len() ==> i == s@.len(),
        decreases s.len() - i,
    {
        if s[i] == '?' || s[i] == '#' {
            end = i;
            break;
        }
        i += 1;
    }
    proof {
        if end < s@.len() {
            assert(first_separator(s@, end as int));
            assert forall|k: int| first_separator(s@, k) implies k == end by {
                if k < end {
                    assert(!is_url_separator(s@[k]));
                }
                if k > end {
                    assert(!is_url_separator(s@[end as int]));
                }
            }
        } else {
            assert forall|k: int| !first_separator(s@, k) by {
                if 0 <= k < s@.len() {
                    assert(!is_url_separator(s@[k]));
                }
            }
            assert(s@.subrange(0, s@.len() as int) =~= s@);
        }
    }
    let base = crate::text::slice_chars(s.as_slice(), 0, end);
    let mut k: usize = 0;
    while k < IMAGE_EXTENSIONS.len()
        invariant
            0 <= k <= IMAGE_EXTENSIONS@.len(),
            base@ == url_base(url@),
            forall|j: int| 0 <= j < k ==> !ends_with(base@, #[trigger] IMAGE_EXTENSIONS@[j]@),
        decreases IMAGE_EXTENSIONS.len() - k,
    {
        if ends_with_lit(base.as_slice(), IMAGE_EXTENSIONS[k]) {
            return true;
        }
        k += 1;
    }
    false
}

/// How good a cover a resource makes, 1 best; 20 means not at all. The URL
/// is compared in lower case.
pub open spec fn cover_priority(resource_type: Seq<char>, url: Option<Seq<char>>) -> u8 {
    let u = unicode_lowercase(
        match url {
            Some(u) => u,
            None => Seq::empty(),
        },
    );
    if resource_type == "image"@ || spec_is_image_url(u) {
        1
    } else if resource_type == "video"@ {
        2
    } else if resource_type == "presentation"@ || ends_with(u, ".pptx"@) {
        3
    } else if resource_type == "github"@ {
        4
    } else if resource_type == "document"@ {
        5
    } else {
        20
    }
}

/// A resource address in lower case; no address is empty.
pub open spec fn lowered_url(url: Option<Seq<char>>) -> Seq<char> {
    unicode_lowercase(
        match url {
            Some(u) => u,
            None => Seq::empty(),
        },
    )
}

/// The resource kinds that can give a cover.
pub open spec fn cover_kind(resource_type: Seq<char>) -> bool {
    ||| resource_type == "image"@
    ||| resource_type == "video"@
    ||| resource_type == "presentation"@
    ||| resource_type == "github"@
    ||| resource_type == "document"@
}

pub open spec fn row_priority(r: CoverResourceRow) -> u8 {
    cover_priority(r.resource_type@, opt_view(r.url))
}

pub fn resource_priority(resource: &CoverResourceRow) -> (r: u8)
    ensures
        r == row_priority(*resource),
        // Images first, by their type or by the picture their address ends in.
        resource.resource_type@ == "image"@ ==> r == 1,
        spec_is_image_url(lowered_url(opt_view(resource.url))) ==> r == 1,
        // Then videos, presentations (or `.pptx` addresses), GitHub
        // repositories and documents.
        resource.resource_type@ == "video"@ && !spec_is_image_url(lowered_url(opt_view(resource.url)))
            ==> r == 2,
        resource.resource_type@ == "presentation"@ && !spec_is_image_url(
            lowered_url(opt_view(resource.url)),
        ) ==> r == 3,
        resource.resource_type@ != "image"@ && resource.resource_type@ != "video"@ && !spec_is_image_url(
            lowered_url(opt_view(resource.url)),
        ) && ends_with(lowered_url(opt_view(resource.url)), ".pptx"@) ==> r == 3,
        resource.resource_type@ == "github"@ && !spec_is_image_url(lowered_url(opt_view(resource.url)))
            && !ends_with(lowered_url(opt_view(resource.url)), ".pptx"@) ==> r == 4,
        resource.resource_type@ == "document"@ && !spec_is_image_url(
            lowered_url(opt_view(resource.url)),
        ) && !ends_with(lowered_url(opt_view(resource.url)), ".pptx"@) ==> r == 5,
        // Anything else is no cover candidate.
        !cover_kind(resource.resource_type@) && !spec_is_image_url(lowered_url(opt_view(resource.url)))
            && !ends_with(lowered_url(opt_view(resource.url)), ".pptx"@) ==> r == 20,
        // A resource of a cover kind is always a candidate.
        cover_kind(resource.resource_type@) ==> 1 <= r <= 5,
{
    proof {
        reveal_strlit("image");
        reveal_strlit("video");
        reveal_strlit("presentation");
        reveal_strlit("github");
        reveal_strlit("document");
        assert("video"@[0] != "image"@[0]);
        assert("video"@ != "image"@);
        assert("presentation"@.len() != "image"@.len() && "presentation"@.len() != "video"@.len());
        assert("github"@.len() != "image"@.len() && "github"@.len() != "video"@.len()
            && "github"@.len() != "presentation"@.len());
        assert("document"@.len() != "image"@.len() && "document"@.len() != "video"@.len()
            && "document"@.len() != "presentation"@.len() && "document"@.len() != "github"@.len());
    }
    let raw = match &resource.url {
        Some(u) => chars_of(u.as_str()),
        None => Vec::new(),
    };
    proof {
        assert(raw@ == (match opt_view(resource.url) {
            Some(u) => u,
            None => Seq::<char>::empty(),
        }));
    }
    let url = to_lowercase(raw.as_slice());
    let url_text = string_of(url.as_slice());
    let ty = chars_of(resource.resource_type.as_str());
    if eq_lit(ty.as_slice(), "image") || is_image_url(url_text.as_str()) {
        1
    } else if eq_lit(ty.as_slice(), "video") {
        2
    } else if eq_lit(ty.as_slice(), "presentation") || ends_with_lit(url.as_slice(), ".pptx") {
        3
    } else if eq_lit(ty.as_slice(), "github") {
        4
    } else if eq_lit(ty.as_slice(), "document") {
        5
    } else {
        20
    }
}

/// `i` is the resource that becomes the cover: a candidate (priority under
/// 20) of the best priority, the first of them where several share it.
pub open spec fn is_cover_choice(rs: Seq<CoverResourceRow>, i: int) -> bool {
    &&& 0 <= i < rs.len()
    &&& row_priority(rs[i]) < 20
    &&& forall|j: int| 0 <= j < rs.len() ==> row_priority(rs[i]) <= row_priority(#[trigger] rs[j])
    &&& forall|j: int| 0 <= j < i ==> row_priority(rs[i]) < row_priority(#[trigger] rs[j])
}

/// At most one resource is the cover choice.
pub proof fn lemma_cover_choice_unique(rs: Seq<CoverResourceRow>, i: int, k: int)
    requires
        is_cover_choice(rs, i),
        is_cover_choice(rs, k),
    ensures
        i == k,
{
    if i < k {
        assert(row_priority(rs[k]) < row_priority(rs[i]));
        assert(row_priority(rs[k]) <= row_priority(rs[i]));
    }
    if k < i {
        assert(row_priority(rs[i]) < row_priority(rs[k]));
        assert(row_priority(rs[i]) <= row_priority(rs[k]));
    }
}

/// The resource that makes the best cover, if any makes one.
pub fn select_resource(resources: &[CoverResourceRow]) -> (r: Option<&CoverResourceRow>)
    ensures
        match r {
            None => forall|j: int| 0 <= j < resources@.len() ==> row_priority(#[trigger] resources@[j]) >= 20,
            Some(x) => exists|i: int| is_cover_choice(resources@, i) && *x == resources@[i],
        },
{
    let mut best: usize = 0;
    let mut found = false;
    let mut best_p: u8 = 20;
    let mut i: usize = 0;
    while i < resources.len()
        invariant
            0 <= i <= resources@.len(),
            !found ==> best_p == 20,
            found ==> best < i && best_p == row_priority(resources@[best as int]) && best_p < 20,
            forall|j: int| 0 <= j < i ==> best_p <= row_priority(#[trigger] resources@[j]),
            found ==> forall|j: int| 0 <= j < best ==> best_p < row_priority(#[trigger] resources@[j]),
        decreases resources.len() - i,
    {
        let p = resource_priority(&resources[i]);
        if p < best_p {
            best = i;
            best_p = p;
            found = true;
        }
        i += 1;
    }
    if found {
        assert(is_cover_choice(resources@, best as int));
        Some(&resources[best])
    } else {
        None
    }
}

proof fn lemma_kind_literals_differ()
    ensures
        "video"@ != "image"@,
        "presentation"@ != "image"@,
        "presentation"@ != "video"@,
{
    reveal_strlit("image");
    reveal_strlit("video");
    reveal_strlit("presentation");
    assert("video"@[0] != "image"@[0]);
    assert("presentation"@.len() != "image"@.len() && "presentation"@.len() != "video"@.len());
}

/// A resource of a cover kind is a cover candidate; a presentation that is
/// no picture ranks third, after images and videos.
pub proof fn law_cover_kinds_are_candidates(resource_type: Seq<char>, url: Option<Seq<char>>)
    ensures
        cover_kind(resource_type) ==> 1 <= cover_priority(resource_type, url) <= 5,
        resource_type == "presentation"@ && !spec_is_image_url(lowered_url(url)) ==> cover_priority(
            resource_type,
            url,
        ) == 3,
        resource_type == "video"@ && !spec_is_image_url(lowered_url(url)) ==> cover_priority(
            resource_type,
            url,
        ) == 2,
        resource_type == "image"@ ==> cover_priority(resource_type, url) == 1,
{
    lemma_kind_literals_differ();
}

/// The first of the best-ranked resources among the first `n`.
pub open spec fn prefix_choice(rs: Seq<CoverResourceRow>, n: int, i: int) -> bool {
    &&& 0 <= i < n
    &&& forall|j: int| 0 <= j < n ==> row_priority(rs[i]) <= row_priority(#[trigger] rs[j])
    &&& forall|j: int| 0 <= j < i ==> row_priority(rs[i]) < row_priority(#[trigger] rs[j])
}

proof fn lemma_prefix_choice(rs: Seq<CoverResourceRow>, n: int)
    requires
        0 < n <= rs.len(),
    ensures
        exists|i: int| #[trigger] prefix_choice(rs, n, i),
    decreases n,
{
    if n == 1 {
        assert(prefix_choice(rs, 1, 0));
    } else {
        lemma_prefix_choice(rs, n - 1);
        let i = choose|i: int| #[trigger] prefix_choice(rs, n - 1, i);
        if row_priority(rs[n - 1]) < row_priority(rs[i]) {
            assert(prefix_choice(rs, n, n - 1));
        } else {
            assert(prefix_choice(rs, n, i));
        }
    }
}

/// A project with a resource of a cover kind gets a resource cover, of a
/// rank no worse than that resource's; where that resource is its only one,
/// the cover is that resource.
pub proof fn law_cover_kind_gives_resource_cover(rs: Seq<CoverResourceRow>, k: int)
    requires
        0 <= k < rs.len(),
        cover_kind(rs[k].resource_type@),
    ensures
        select_result(rs) matches Some(i) && 0 <= i < rs.len() && row_priority(rs[i]) <= row_priority(
            rs[k],
        ),
        rs.len() == 1 ==> select_result(rs) == Some(0int),
{
    law_cover_kinds_are_candidates(rs[k].resource_type@, opt_view(rs[k].url));
    lemma_prefix_choice(rs, rs.len() as int);
    let i = choose|i: int| #[trigger] prefix_choice(rs, rs.len() as int, i);
    assert(is_cover_choice(rs, i));
    let c = choose|c: int| is_cover_choice(rs, c);
    lemma_cover_choice_unique(rs, i, c);
}

/// Where some resource is an image, the cover is an image or another
/// resource of the first priority.
pub proof fn law_image_resources_come_first(rs: Seq<CoverResourceRow>, k: int, i: int)
    requires
        0 <= k < rs.len(),
        rs[k].resource_type@ == "image"@,
        is_cover_choice(rs, i),
    ensures
        row_priority(rs[i]) == 1,
{
    assert(row_priority(rs[k]) == 1);
    assert(row_priority(rs[i]) <= row_priority(rs[k]));
}

// ----------------------------------------------------------------------------
// The text cover
// ----------------------------------------------------------------------------

/// Words of a project name that call for a fixed title.
pub const CURATED_KEYWORDS: [&'static str; 7] = ["棉花", "病虫害", "机器人", "会议纪要", "预约", "归档", "预测"];

/// The title that goes with each curated word.
pub const CURATED_TITLES: [&'static str; 7] = [
    "棉田智检",
    "病害智检",
    "智能巡检",
    "智能纪要",
    "便捷预约",
    "实验归档",
    "智能预测",
];

/// Words that say nothing in a title and are dropped from the name.
pub const FILLER_WORDS: [&'static str; 5] = ["基于", "面向", "平台", "系统", "项目"];

/// `k` is the first curated word that the name contains.
pub open spec fn first_curated(name: Seq<char>, k: int) -> bool {
    &&& 0 <= k < CURATED_KEYWORDS@.len()
    &&& contains(name, CURATED_KEYWORDS@[k]@)
    &&& forall|j: int| 0 <= j < k ==> !contains(name, #[trigger] CURATED_KEYWORDS@[j]@)
}

/// The name with every filler word removed, one word after the other.
pub open spec fn without_fillers(name: Seq<char>) -> Seq<char> {
    let e = Seq::<char>::empty();
    replace_all(
        replace_all(
            replace_all(
                replace_all(replace_all(name, FILLER_WORDS@[0]@, e), FILLER_WORDS@[1]@, e),
                FILLER_WORDS@[2]@,
                e,
            ),
            FILLER_WORDS@[3]@,
            e,
        ),
        FILLER_WORDS@[4]@,
        e,
    )
}

/// A CJK unified ideograph of the basic block.
pub open spec fn is_cjk(c: char) -> bool {
    '\u{4e00}' <= c && c <= '\u{9fff}'
}

/// The CJK ideographs of `s`, in order.
pub open spec fn cjk_only(s: Seq<char>) -> Seq<char>
    decreases s.len(),
{
    if s.len() == 0 {
        s
    } else if is_cjk(s.last()) {
        cjk_only(s.drop_last()).push(s.last())
    } else {
        cjk_only(s.drop_last())
    }
}

/// The title of a category where the name gives none.
pub open spec fn category_title(category: Seq<char>) -> Seq<char> {
    if category == "智能硬件"@ {
        "智能硬件"@
    } else if category == "AI 软件"@ {
        "智能应用"@
    } else if category == "数字媒体"@ {
        "数字创意"@
    } else if category == "研究成果"@ {
        "研究成果"@
    } else {
        "软件项目"@
    }
}

/// The title of a text cover: the curated title of the first curated word in
/// the name; else the first eight ideographs of the name without filler
/// words, where there are at least four; else the title of the category.
pub open spec fn spec_fallback_title(name: Seq<char>, category: Seq<char>) -> Seq<char> {
    if exists|k: int| first_curated(name, k) {
        CURATED_TITLES@[choose|k: int| first_curated(name, k)]@
    } else {
        let chinese = take(cjk_only(without_fillers(name)), 8);
        if chinese.len() >= 4 {
            chinese
        } else {
            category_title(category)
        }
    }
}

fn cjk_chars(s: &[char]) -> (r: Vec<char>)
    ensures
        r@ == cjk_only(s@),
{
    let mut out: Vec<char> = Vec::new();
    let mut i: usize = 0;
    while i < s.len()
        invariant
            0 <= i <= s@.len(),
            out@ == cjk_only(s@.subrange(0, i as int)),
        decreases s.len() - i,
    {
        proof {
            let next = s@.subrange(0, i + 1);
            assert(next.drop_last() =~= s@.subrange(0, i as int));
            assert(next.last() == s@[i as int]);
        }
        let c = s[i];
        if '\u{4e00}' <= c && c <= '\u{9fff}' {
            out.push(c);
        }
        i += 1;
    }
    assert(s@.subrange(0, s@.len() as int) =~= s@);
    out
}

fn category_title_of(category: &str) -> (r: &'static str)
    ensures
        r@ == category_title(category@),
{
    let c = chars_of(category);
    if eq_lit(c.as_slice(), "智能硬件") {
        "智能硬件"
    } else if eq_lit(c.as_slice(), "AI 软件") {
        "智能应用"
    } else if eq_lit(c.as_slice(), "数字媒体") {
        "数字创意"
    } else if eq_lit(c.as_slice(), "研究成果") {
        "研究成果"
    } else {
        "软件项目"
    }
}

/// The title of a text cover for a project (see `spec_fallback_title`).
pub fn fallback_title(name: &str, category: &str) -> (r: String)
    ensures
        r@ == spec_fallback_title(name@, category@),
{
    let n = chars_of(name);
    let mut k: usize = 0;
    while k < CURATED_KEYWORDS.len()
        invariant
            0 <= k <= CURATED_KEYWORDS@.len(),
            n@ == name@,
            forall|j: int| 0 <= j < k ==> !contains(name@, #[trigger] CURATED_KEYWORDS@[j]@),
        decreases CURATED_KEYWORDS.len() - k,
    {
        if contains_lit(n.as_slice(), CURATED_KEYWORDS[k]) {
            proof {
                assert(first_curated(name@, k as int));
                assert forall|j: int| first_curated(name@, j) implies j == k by {
                    if j < k {
                        assert(!contains(name@, CURATED_KEYWORDS@[j]@));
                    }
                    if j > k {
                        assert(!contains(name@, CURATED_KEYWORDS@[k as int]@));
                    }
                }
            }
            return String::from_str(CURATED_TITLES[k]);
        }
        k += 1;
    }
    proof {
        assert forall|j: int| !first_curated(name@, j) by {
            if 0 <= j < CURATED_KEYWORDS@.len() {
                assert(!contains(name@, CURATED_KEYWORDS@[j]@));
            }
        }
    }
    let mut cleaned = n;
    let mut f: usize = 0;
    let empty: Vec<char> = Vec::new();
    while f < FILLER_WORDS.len()
        invariant
            0 <= f <= FILLER_WORDS@.len(),
            empty@ == Seq::<char>::empty(),
            f == 0 ==> cleaned@ == name@,
            f == 1 ==> cleaned@ == replace_all(name@, FILLER_WORDS@[0]@, empty@),
            f == 2 ==> cleaned@ == replace_all(
                replace_all(name@, FILLER_WORDS@[0]@, empty@),
                FILLER_WORDS@[1]@,
                empty@,
            ),
            f == 3 ==> cleaned@ == replace_all(
                replace_all(
                    replace_all(name@, FILLER_WORDS@[0]@, empty@),
                    FILLER_WORDS@[1]@,
                    empty@,
                ),
                FILLER_WORDS@[2]@,
                empty@,
            ),
            f == 4 ==> cleaned@ == replace_all(
                replace_all(
                    replace_all(
                        replace_all(name@, FILLER_WORDS@[0]@, empty@),
                        FILLER_WORDS@[1]@,
                        empty@,
                    ),
                    FILLER_WORDS@[2]@,
                    empty@,
                ),
                FILLER_WORDS@[3]@,
                empty@,
            ),
            f == 5 ==> cleaned@ == without_fillers(name@),
        decreases FILLER_WORDS.len() - f,
    {
        let word = chars_of(FILLER_WORDS[f]);
        proof {
            reveal_strlit("基于");
            reveal_strlit("面向");
            reveal_strlit("平台");
            reveal_strlit("系统");
            reveal_strlit("项目");
        }
        cleaned = replace_chars(cleaned.as_slice(), word.as_slice(), empty.as_slice());
        f += 1;
    }
    let ideographs = cjk_chars(cleaned.as_slice());
    let chinese = take_chars(ideographs.as_slice(), 8);
    if chinese.len() >= 4 {
        string_of(chinese.as_slice())
    } else {
        String::from_str(category_title_of(category))
    }
}

/// Every text-cover title has four to eight characters.
pub proof fn law_fallback_title_length(name: Seq<char>, category: Seq<char>)
    ensures
        4 <= spec_fallback_title(name, category).len() <= 8,
{
    reveal_strlit("棉田智检");
    reveal_strlit("病害智检");
    reveal_strlit("智能巡检");
    reveal_strlit("智能纪要");
    reveal_strlit("便捷预约");
    reveal_strlit("实验归档");
    reveal_strlit("智能预测");
    reveal_strlit("智能硬件");
    reveal_strlit("智能应用");
    reveal_strlit("数字创意");
    reveal_strlit("研究成果");
    reveal_strlit("软件项目");
    if exists|k: int| first_curated(name, k) {
        let k = choose|k: int| first_curated(name, k);
        assert(CURATED_TITLES@[k]@.len() == 4);
    }
}

/// The tone of a cover, by category.
pub open spec fn spec_tone_for_category(category: Seq<char>) -> Seq<char> {
    if category == "智能硬件"@ {
        "amber"@
    } else if category == "AI 软件"@ {
        "violet"@
    } else if category == "数字媒体"@ {
        "cyan"@
    } else if category == "研究成果"@ {
        "emerald"@
    } else {
        "slate"@
    }
}

pub fn tone_for_category(category: &str) -> (r: &'static str)
    ensures
        r@ == spec_tone_for_category(category@),
{
    let c = chars_of(category);
    if eq_lit(c.as_slice(), "智能硬件") {
        "amber"
    } else if eq_lit(c.as_slice(), "AI 软件") {
        "violet"
    } else if eq_lit(c.as_slice(), "数字媒体") {
        "cyan"
    } else if eq_lit(c.as_slice(), "研究成果") {
        "emerald"
    } else {
        "slate"
    }
}

/// The first `limit` characters of the trimmed text.
pub fn truncate(value: &str, limit: usize) -> (r: String)
    ensures
        r@ == take(trim(value@), limit as int),
{
    let v = chars_of(value);
    let t = trim_chars(v.as_slice());
    let c = take_chars(t.as_slice(), limit);
    string_of(c.as_slice())
}

// ----------------------------------------------------------------------------
// Covers chosen by members
// ----------------------------------------------------------------------------

/// Why a chosen cover is refused, if it is. (A named resource that does not
/// belong to the project is refused later, by `attach_cover_resource`.)
pub open spec fn patch_failure(p: CoverPatch) -> Option<Seq<char>> {
    let mode = unicode_lowercase(trim(p.cover_mode@));
    let title = trim(p.cover_title@);
    let subtitle = trim(p.cover_subtitle@);
    if !one_of(mode, COVER_MODES@) {
        Some("封面模式不受支持"@)
    } else if title.len() == 0 || title.len() > 16 || subtitle.len() > 40 {
        Some("请检查封面标题与副标题长度"@)
    } else if mode == "resource"@ && p.cover_resource_id is None {
        Some("资源封面必须指定项目资源"@)
    } else {
        None
    }
}

/// The cover that a valid chosen cover becomes, before its resource's URL is
/// looked up: mode in lower case, texts trimmed, at most three keywords,
/// full confidence.
pub open spec fn patched_as(c: GeneratedCover, p: CoverPatch) -> bool {
    &&& c.cover_mode@ == unicode_lowercase(trim(p.cover_mode@))
    &&& opt_view(c.cover_resource_id) == opt_view(p.cover_resource_id)
    &&& c.cover_resource_url is None
    &&& c.cover_title@ == trim(p.cover_title@)
    &&& c.cover_subtitle@ == trim(p.cover_subtitle@)
    &&& strings_view(c.cover_keywords@) == take_items(
        nonblank_trimmed(strings_view(p.cover_keywords@)),
        3,
    )
    &&& c.cover_tone@ == trim(p.cover_tone@)
    &&& c.confidence_percent == 100
}

/// Checks a chosen cover and normalizes it.
pub fn prepare_cover_patch(input: CoverPatch) -> (r: Result<GeneratedCover, AppError>)
    ensures
        match r {
            Ok(c) => patch_failure(input) is None && patched_as(c, input),
            Err(e) => patch_failure(input) is Some && (e matches AppError::BadRequest(m) && m@
                == patch_failure(input)->0),
        },
{
    let raw_mode = chars_of(input.cover_mode.as_str());
    let trimmed_mode = trim_chars(raw_mode.as_slice());
    let mode = to_lowercase(trimmed_mode.as_slice());
    if !is_one_of(mode.as_slice(), &COVER_MODES) {
        return Err(AppError::BadRequest(String::from_str("封面模式不受支持")));
    }
    let raw_title = chars_of(input.cover_title.as_str());
    let title = trim_chars(raw_title.as_slice());
    let raw_subtitle = chars_of(input.cover_subtitle.as_str());
    let subtitle = trim_chars(raw_subtitle.as_slice());
    if title.len() == 0 || title.len() > 16 || subtitle.len() > 40 {
        return Err(AppError::BadRequest(String::from_str("请检查封面标题与副标题长度")));
    }
    let keywords = normalize_keywords(input.cover_keywords);
    if eq_lit(mode.as_slice(), "resource") && input.cover_resource_id.is_none() {
        return Err(AppError::BadRequest(String::from_str("资源封面必须指定项目资源")));
    }
    let raw_tone = chars_of(input.cover_tone.as_str());
    let tone = trim_chars(raw_tone.as_slice());
    Ok(
        GeneratedCover {
            cover_mode: string_of(mode.as_slice()),
            cover_resource_id: input.cover_resource_id,
            cover_resource_url: None,
            cover_title: string_of(title.as_slice()),
            cover_subtitle: string_of(subtitle.as_slice()),
            cover_keywords: keywords,
            cover_tone: string_of(tone.as_slice()),
            confidence_percent: 100,
        },
    )
}

/// Completes a prepared cover with its resource's URL. `lookup` is what the
/// store answered for the named resource within the project: `None` where the
/// project holds no such resource, else the resource's URL, if it has one.
pub fn attach_cover_resource(cover: GeneratedCover, lookup: Option<Option<String>>) -> (r: Result<
    GeneratedCover,
    AppError,
>)
    ensures
        cover.cover_resource_id is Some && lookup is None <==> r is Err,
        r matches Err(e) ==> (e matches AppError::BadRequest(m) && m@ == "封面资源不属于该项目"@),
        r matches Ok(c) ==> c == (GeneratedCover {
            cover_resource_url: if cover.cover_resource_id is Some {
                lookup->0
            } else {
                None
            },
            ..cover
        }),
{
    if cover.cover_resource_id.is_none() {
        return Ok(GeneratedCover { cover_resource_url: None, ..cover });
    }
    match lookup {
        None => Err(AppError::BadRequest(String::from_str("封面资源不属于该项目"))),
        Some(url) => Ok(GeneratedCover { cover_resource_url: url, ..cover }),
    }
}

// ----------------------------------------------------------------------------
// Generated covers
// ----------------------------------------------------------------------------

/// A cover is kept as it is when asked to keep manual covers and the
/// project's cover is manual.
pub fn keeps_manual_cover(preserve_manual: bool, project: &CoverProjectRow) -> (r: bool)
    ensures
        r == (preserve_manual && project.cover_mode@ == "manual"@),
{
    if !preserve_manual {
        return false;
    }
    let m = chars_of(project.cover_mode.as_str());
    eq_lit(m.as_slice(), "manual")
}

/// A kept manual cover, with what is missing filled in: the text-cover title,
/// the first twenty characters of the summary, full confidence.
pub fn manual_cover(project: CoverProjectRow, resource_url: Option<String>) -> (r: GeneratedCover)
    ensures
        r.cover_mode@ == project.cover_mode@,
        opt_view(r.cover_resource_id) == opt_view(project.cover_resource_id),
        opt_view(r.cover_resource_url) == opt_view(resource_url),
        r.cover_title@ == (match opt_view(project.cover_title) {
            Some(t) => t,
            None => spec_fallback_title(project.name@, project.primary_category@),
        }),
        r.cover_subtitle@ == (match opt_view(project.cover_subtitle) {
            Some(t) => t,
            None => take(trim(project.summary@), 20),
        }),
        strings_view(r.cover_keywords@) == (match json_decode_strings(project.cover_keywords@) {
            Some(items) => items,
            None => Seq::<Seq<char>>::empty(),
        }),
        r.cover_tone@ == project.cover_tone@,
        r.confidence_percent == (match project.cover_confidence_percent {
            Some(c) => c,
            None => 100,
        }),
{
    let cover_title = match project.cover_title {
        Some(t) => t,
        None => fallback_title(project.name.as_str(), project.primary_category.as_str()),
    };
    let cover_subtitle = match project.cover_subtitle {
        Some(t) => t,
        None => truncate(project.summary.as_str(), 20),
    };
    let cover_keywords = parse_keywords(project.cover_keywords.as_str());
    let confidence_percent = match project.cover_confidence_percent {
        Some(c) => c,
        None => 100,
    };
    GeneratedCover {
        cover_mode: project.cover_mode,
        cover_resource_id: project.cover_resource_id,
        cover_resource_url: resource_url,
        cover_title,
        cover_subtitle,
        cover_keywords,
        cover_tone: project.cover_tone,
        confidence_percent,
    }
}

/// A generated cover: the best resource where one makes a cover (92 percent
/// confidence), else a text cover (74 percent); the text-cover title, the
/// first twenty characters of the summary, the first tags (else the
/// category) as keywords, and the category's tone.
pub fn generated_cover(project: &CoverProjectRow, resources: &[CoverResourceRow], tags: Vec<String>) -> (r:
    GeneratedCover)
    ensures
        match select_result(resources@) {
            Some(i) => {
                &&& r.cover_mode@ == "resource"@
                &&& opt_view(r.cover_resource_id) == Some(resources@[i].id@)
                &&& opt_view(r.cover_resource_url) == opt_view(resources@[i].url)
                &&& r.confidence_percent == 92
            },
            None => {
                &&& r.cover_mode@ == "text"@
                &&& r.cover_resource_id is None
                &&& r.cover_resource_url is None
                &&& r.confidence_percent == 74
            },
        },
        r.cover_title@ == spec_fallback_title(project.name@, project.primary_category@),
        r.cover_subtitle@ == take(trim(project.summary@), 20),
        strings_view(r.cover_keywords@) == (if tags@.len() == 0 {
            seq![project.primary_category@]
        } else {
            strings_view(tags@)
        }),
        r.cover_tone@ == spec_tone_for_category(project.primary_category@),
{
    let candidate = select_resource(resources);
    proof {
        match candidate {
            Some(x) => {
                let i = choose|i: int| is_cover_choice(resources@, i) && *x == resources@[i];
                assert(is_cover_choice(resources@, i));
                assert(select_result(resources@) == Some(i)) by {
                    assert forall|k: int| is_cover_choice(resources@, k) implies k == i by {
                        lemma_cover_choice_unique(resources@, i, k);
                    }
                }
            },
            None => {
                assert forall|k: int| !is_cover_choice(resources@, k) by {
                    if 0 <= k < resources@.len() {
                        assert(row_priority(resources@[k]) >= 20);
                    }
                }
            },
        }
    }
    let (cover_mode, cover_resource_id, cover_resource_url, confidence_percent) = match candidate {
        Some(x) => (String::from_str("resource"), Some(x.id.clone()), x.url.clone(), 92u32),
        None => (String::from_str("text"), None, None, 74u32),
    };
    let cover_title = fallback_title(project.name.as_str(), project.primary_category.as_str());
    let cover_subtitle = truncate(project.summary.as_str(), 20);
    let cover_keywords = if tags.len() == 0 {
        let mut k: Vec<String> = Vec::new();
        k.push(project.primary_category.clone());
        proof {
            assert(strings_view(k@) =~= seq![project.primary_category@]);
        }
        k
    } else {
        tags
    };
    let cover_tone = String::from_str(tone_for_category(project.primary_category.as_str()));
    GeneratedCover {
        cover_mode,
        cover_resource_id,
        cover_resource_url,
        cover_title,
        cover_subtitle,
        cover_keywords,
        cover_tone,
        confidence_percent,
    }
}

/// The index of the resource that becomes the cover, if any.
pub open spec fn select_result(rs: Seq<CoverResourceRow>) -> Option<int> {
    if exists|i: int| is_cover_choice(rs, i) {
        Some(choose|i: int| is_cover_choice(rs, i))
    } else {
        None
    }
}

} // verus!
