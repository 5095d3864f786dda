//! Projects: the categories, and how a project written by a member is
//! normalized and validated before it is stored.

use vstd::prelude::*;

use crate::auth::FeiyueIdentity;
use crate::error::AppError;
use crate::ids::fresh_id;
use crate::json::{json_array_of, json_string_array};
use crate::text::{
    ascii_lowercase, chars_of, contains, eq_lit, is_one_of, one_of, push_str, string_of, to_lowercase, trim, trim_chars,
    unicode_lowercase, utf8_len, utf8_len_of,
};

verus! {

/// The five product categories of a project, in display order.
pub const PROJECT_CATEGORIES: [&'static str; 5] = ["传统软件", "智能硬件", "AI 软件", "数字媒体", "研究成果"];

/// The kinds of resource that a project may list.
pub const RESOURCE_TYPES: [&'static str; 8] = [
    "github",
    "baidu",
    "document",
    "presentation",
    "archive",
    "video",
    "image",
    "link",
];

pub const COVER_MODES: [&'static str; 3] = ["manual", "resource", "text"];

/// Search and filter parameters of the project list.
#[derive(Debug)]
pub struct ProjectListQuery {
    pub q: Option<String>,
    pub category: Option<String>,
}

/// A resource of a project as a member writes it.
#[derive(Clone, Debug)]
pub struct ProjectResourceInput {
    pub id: Option<String>,
    pub resource_type: String,
    pub title: String,
    pub url: Option<String>,
    pub source_import_job_id: Option<String>,
    pub source_artifact_id: Option<String>,
}

/// A project as a member writes it.
#[derive(Clone, Debug)]
pub struct ProjectWriteInput {
    pub slug: String,
    pub name: String,
    pub summary: String,
    pub primary_category: String,
    pub highest_award: Option<String>,
    pub status: String,
    pub critique: String,
    pub owner_name: Option<String>,
    pub source_name: Option<String>,
    pub tags: Vec<String>,
    pub resources: Vec<ProjectResourceInput>,
    pub cover_mode: Option<String>,
    pub cover_title: Option<String>,
    pub cover_subtitle: Option<String>,
    pub cover_keywords: Vec<String>,
    pub cover_tone: Option<String>,
}

/// A stored resource of a project as the API shows it.
#[derive(Debug)]
pub struct ProjectResource {
    pub id: String,
    pub resource_type: String,
    pub title: String,
    pub url: Option<String>,
    pub source_name: Option<String>,
    pub mime_type: Option<String>,
    pub size_bytes: Option<i64>,
    pub display_path: Option<String>,
    pub preview_kind: Option<String>,
    pub content_url: Option<String>,
    pub download_url: Option<String>,
}

// ----------------------------------------------------------------------------
// Views
// ----------------------------------------------------------------------------

pub open spec fn opt_view(o: Option<String>) -> Option<Seq<char>> {
    match o {
        Some(s) => Some(s@),
        None => None,
    }
}

pub open spec fn strings_view(v: Seq<String>) -> Seq<Seq<char>> {
    v.map_values(|s: String| s@)
}

// ----------------------------------------------------------------------------
// Small rules
// ----------------------------------------------------------------------------

/// Trimmed, and `None` when nothing is left.
pub open spec fn spec_normalize_optional(o: Option<Seq<char>>) -> Option<Seq<char>> {
    match o {
        Some(s) => if trim(s).len() == 0 {
            None
        } else {
            Some(trim(s))
        },
        None => None,
    }
}

pub fn normalize_optional(value: Option<String>) -> (r: Option<String>)
    ensures
        opt_view(r) == spec_normalize_optional(opt_view(value)),
{
    normalize_optional_ref(&value)
}

/// `normalize_optional` of a borrowed value.
pub fn normalize_optional_ref(value: &Option<String>) -> (r: Option<String>)
    ensures
        opt_view(r) == spec_normalize_optional(opt_view(*value)),
{
    match value {
        Some(s) => {
            let v = chars_of(s.as_str());
            let t = trim_chars(v.as_slice());
            if t.len() == 0 {
                None
            } else {
                Some(string_of(t.as_slice()))
            }
        },
        None => None,
    }
}

/// A project path: 1 to 80 bytes of lower-case ASCII letters, digits and
/// hyphens, neither starting nor ending with a hyphen.
pub open spec fn spec_valid_slug(s: Seq<char>) -> bool {
    &&& s.len() > 0
    &&& utf8_len(s) <= 80
    &&& s[0] != '-'
    &&& s.last() != '-'
    &&& forall|i: int|
        0 <= i < s.len() ==> ('a' <= #[trigger] s[i] && s[i] <= 'z') || ('0' <= s[i] && s[i]
            <= '9') || s[i] == '-'
}

pub fn valid_slug(value: &str) -> (r: bool)
    ensures
        r == spec_valid_slug(value@),
{
    let s = chars_of(value);
    if s.len() == 0 {
        return false;
    }
    if utf8_len_of(s.as_slice()) > 80 {
        return false;
    }
    if s[0] == '-' || s[s.len() - 1] == '-' {
        return false;
    }
    let mut i: usize = 0;
    while i < s.len()
        invariant
            0 <= i <= s@.len(),
            s@ == value@,
            forall|j: int|
                0 <= j < i ==> ('a' <= #[trigger] s@[j] && s@[j] <= 'z') || ('0' <= s@[j] && s@[j]
                    <= '9') || s@[j] == '-',
        decreases s.len() - i,
    {
        let c = s[i];
        if !(('a' <= c && c <= 'z') || ('0' <= c && c <= '9') || c == '-') {
            assert(s@[i as int] == c);
            return false;
        }
        i += 1;
    }
    true
}

/// A category that the product knows.
pub open spec fn spec_is_project_category(c: Seq<char>) -> bool {
    one_of(c, PROJECT_CATEGORIES@)
}

pub fn is_project_category(category: &str) -> (r: bool)
    ensures
        r == spec_is_project_category(category@),
{
    let c = chars_of(category);
    is_one_of(c.as_slice(), &PROJECT_CATEGORIES)
}

// ----------------------------------------------------------------------------
// Tags and keywords
// ----------------------------------------------------------------------------

/// The trimmed, non-empty tags in order, each kept only where no earlier kept
/// tag has the same lower-case form.
pub open spec fn dedup_tags(tags: Seq<Seq<char>>) -> Seq<Seq<char>>
    decreases tags.len(),
{
    if tags.len() == 0 {
        Seq::empty()
    } else {
        let kept = dedup_tags(tags.drop_last());
        let t = trim(tags.last());
        if t.len() == 0 || exists|k: int|
            0 <= k < kept.len() && unicode_lowercase(#[trigger] kept[k]) == unicode_lowercase(t) {
            kept
        } else {
            kept.push(t)
        }
    }
}

/// The trimmed, non-empty entries in order.
pub open spec fn nonblank_trimmed(items: Seq<Seq<char>>) -> Seq<Seq<char>>
    decreases items.len(),
{
    if items.len() == 0 {
        Seq::empty()
    } else {
        let kept = nonblank_trimmed(items.drop_last());
        let t = trim(items.last());
        if t.len() == 0 {
            kept
        } else {
            kept.push(t)
        }
    }
}

pub open spec fn take_items(s: Seq<Seq<char>>, n: int) -> Seq<Seq<char>> {
    if n < s.len() {
        s.subrange(0, n)
    } else {
        s
    }
}

/// No two tags share a lower-case form.
pub open spec fn distinct_by_lowercase(tags: Seq<Seq<char>>) -> bool {
    forall|i: int, j: int|
        0 <= i < j < tags.len() ==> unicode_lowercase(#[trigger] tags[i]) != unicode_lowercase(
            #[trigger] tags[j],
        )
}

pub proof fn lemma_dedup_distinct(tags: Seq<Seq<char>>)
    ensures
        distinct_by_lowercase(dedup_tags(tags)),
        forall|k: int|
            0 <= k < dedup_tags(tags).len() ==> trim(#[trigger] dedup_tags(tags)[k]).len() > 0
                && dedup_tags(tags)[k] == trim(dedup_tags(tags)[k]),
    decreases tags.len(),
{
    if tags.len() > 0 {
        lemma_dedup_distinct(tags.drop_last());
        let kept = dedup_tags(tags.drop_last());
        let t = trim(tags.last());
        crate::text::lemma_trim_idempotent(tags.last());
    }
}

/// Trims the tags, drops blank ones and case-insensitive repeats, keeps 20.
pub fn normalize_tags(tags: Vec<String>) -> (r: Vec<String>)
    ensures
        strings_view(r@) == take_items(dedup_tags(strings_view(tags@)), 20),
{
    let ghost input = strings_view(tags@);
    let mut kept: Vec<String> = Vec::new();
    let mut seen: Vec<Vec<char>> = Vec::new();
    let mut i: usize = 0;
    proof {
        assert(input.subrange(0, 0) =~= Seq::<Seq<char>>::empty());
    }
    while i < tags.len()
        invariant
            0 <= i <= tags@.len(),
            input == strings_view(tags@),
            strings_view(kept@) == dedup_tags(input.subrange(0, i as int)),
            seen@.len() == kept@.len(),
            forall|k: int|
                0 <= k < seen@.len() ==> #[trigger] seen@[k]@ == unicode_lowercase(kept@[k]@),
        decreases tags.len() - i,
    {
        let ghost prefix = input.subrange(0, i as int);
        let ghost next = input.subrange(0, i + 1);
        proof {
            assert(next.drop_last() =~= prefix);
            assert(next.last() == tags@[i as int]@);
        }
        let v = chars_of(tags[i].as_str());
        let t = trim_chars(v.as_slice());
        if t.len() > 0 {
            let key = to_lowercase(t.as_slice());
            let mut dup = false;
            let mut k: usize = 0;
            while k < seen.len()
                invariant
                    0 <= k <= seen@.len(),
                    seen@.len() == kept@.len(),
                    forall|m: int|
                        0 <= m < seen@.len() ==> #[trigger] seen@[m]@ == unicode_lowercase(
                            kept@[m]@,
                        ),
                    !dup ==> forall|m: int| 0 <= m < k ==> seen@[m]@ != key@,
                    dup ==> exists|m: int| 0 <= m < seen@.len() && seen@[m]@ == key@,
                decreases seen.len() - k,
            {
                if crate::text::chars_eq(seen[k].as_slice(), key.as_slice()) {
                    dup = true;
                }
                k += 1;
            }
            let ghost dk = dedup_tags(prefix);
            proof {
                assert(strings_view(kept@) == dk);
                assert forall|m: int| 0 <= m < dk.len() implies #[trigger] dk[m] == kept@[m]@ by {
                    assert(strings_view(kept@)[m] == kept@[m]@);
                }
                if dup {
                    let m = choose|m: int| 0 <= m < seen@.len() && seen@[m]@ == key@;
                    assert(unicode_lowercase(dk[m]) == unicode_lowercase(t@));
                } else {
                    assert forall|m: int| 0 <= m < dk.len() implies unicode_lowercase(
                        #[trigger] dk[m],
                    ) != unicode_lowercase(t@) by {
                        assert(seen@[m]@ == unicode_lowercase(kept@[m]@));
                    }
                }
            }
            if !dup {
                let ghost before = kept@;
                let ghost seen_before = seen@;
                kept.push(string_of(t.as_slice()));
                seen.push(key);
                proof {
                    assert(strings_view(kept@) =~= strings_view(before).push(t@));
                    assert forall|m: int| 0 <= m < seen@.len() implies #[trigger] seen@[m]@
                        == unicode_lowercase(kept@[m]@) by {
                        if m < seen_before.len() {
                            assert(seen@[m] == seen_before[m]);
                            assert(kept@[m] == before[m]);
                        }
                    }
                }
            }
        }
        i += 1;
    }
    proof {
        assert(input.subrange(0, input.len() as int) =~= input);
    }
    if kept.len() > 20 {
        kept.truncate(20);
        proof {
            assert(strings_view(kept@) =~= dedup_tags(input).subrange(0, 20));
        }
    }
    kept
}

/// Trims the keywords, drops blank ones, keeps three.
pub fn normalize_keywords(keywords: Vec<String>) -> (r: Vec<String>)
    ensures
        strings_view(r@) == take_items(nonblank_trimmed(strings_view(keywords@)), 3),
{
    let ghost input = strings_view(keywords@);
    let mut kept: Vec<String> = Vec::new();
    let mut i: usize = 0;
    proof {
        assert(input.subrange(0, 0) =~= Seq::<Seq<char>>::empty());
    }
    while i < keywords.len()
        invariant
            0 <= i <= keywords@.len(),
            input == strings_view(keywords@),
            strings_view(kept@) == nonblank_trimmed(input.subrange(0, i as int)),
        decreases keywords.len() - i,
    {
        let ghost prefix = input.subrange(0, i as int);
        let ghost next = input.subrange(0, i + 1);
        proof {
            assert(next.drop_last() =~= prefix);
            assert(next.last() == keywords@[i as int]@);
        }
        let v = chars_of(keywords[i].as_str());
        let t = trim_chars(v.as_slice());
        if t.len() > 0 {
            let ghost before = kept@;
            kept.push(string_of(t.as_slice()));
            proof {
                assert(strings_view(kept@) =~= strings_view(before).push(t@));
            }
        }
        i += 1;
    }
    proof {
        assert(input.subrange(0, input.len() as int) =~= input);
    }
    if kept.len() > 3 {
        let ghost all = strings_view(kept@);
        kept.truncate(3);
        proof {
            assert(strings_view(kept@) =~= all.subrange(0, 3));
        }
    }
    kept
}

} // verus!

verus! {

pub open spec fn msg_empty_name() -> Seq<char> {
    "项目名和简介不能为空"@
}

/// Why a resource of a project is refused, if it is.
pub open spec fn resource_failure(r: ProjectResourceInput) -> Option<Seq<char>> {
    let ty = unicode_lowercase(trim(r.resource_type@));
    let job = spec_normalize_optional(opt_view(r.source_import_job_id));
    let artifact = spec_normalize_optional(opt_view(r.source_artifact_id));
    if !one_of(ty, RESOURCE_TYPES@) {
        Some("资源类型 "@ + ty + " 不受支持"@)
    } else if trim(r.title@).len() == 0 {
        Some("资源标题不能为空"@)
    } else if job.is_some() != artifact.is_some() {
        Some("导入资源必须同时提供任务编号和附件编号"@)
    } else if spec_normalize_optional(opt_view(r.id)).is_some() && artifact.is_some() {
        Some("已有资源不能重复绑定导入附件"@)
    } else {
        None
    }
}

/// A resource normalized: every text trimmed, the type in lower case, blank
/// optional texts absent.
pub open spec fn resource_normalized_as(out: ProjectResourceInput, r: ProjectResourceInput) -> bool {
    &&& opt_view(out.id) == spec_normalize_optional(opt_view(r.id))
    &&& out.resource_type@ == unicode_lowercase(trim(r.resource_type@))
    &&& out.title@ == trim(r.title@)
    &&& opt_view(out.url) == spec_normalize_optional(opt_view(r.url))
    &&& opt_view(out.source_import_job_id) == spec_normalize_optional(
        opt_view(r.source_import_job_id),
    )
    &&& opt_view(out.source_artifact_id) == spec_normalize_optional(opt_view(r.source_artifact_id))
}

pub open spec fn first_failing_resource(rs: Seq<ProjectResourceInput>, i: int) -> bool {
    &&& 0 <= i < rs.len()
    &&& resource_failure(rs[i]) is Some
    &&& forall|j: int| 0 <= j < i ==> resource_failure(#[trigger] rs[j]) is None
}

pub open spec fn normalized_cover_mode(o: Option<String>) -> Option<Seq<char>> {
    match spec_normalize_optional(opt_view(o)) {
        Some(m) => Some(unicode_lowercase(m)),
        None => None,
    }
}

/// The first rule on the project's own fields that `p` breaks, if any.
pub open spec fn field_failure(p: ProjectWriteInput) -> Option<Seq<char>> {
    let name = trim(p.name@);
    let summary = trim(p.summary@);
    let mode = normalized_cover_mode(p.cover_mode);
    if name.len() == 0 || summary.len() == 0 {
        Some(msg_empty_name())
    } else if name.len() > 120 || summary.len() > 500 {
        Some("项目名或简介过长"@)
    } else if !spec_valid_slug(unicode_lowercase(trim(p.slug@))) {
        Some("项目路径只能包含小写字母、数字和连字符"@)
    } else if !spec_is_project_category(trim(p.primary_category@)) {
        Some("项目类别不受支持"@)
    } else if trim(p.status@).len() == 0 {
        Some("项目状态不能为空"@)
    } else if mode is Some && !one_of(mode->0, COVER_MODES@) {
        Some("封面模式不受支持"@)
    } else {
        None
    }
}

/// Why a written project is refused, if it is: the first rule it breaks,
/// the project's own fields first, then its resources in order.
pub open spec fn input_failure(p: ProjectWriteInput) -> Option<Seq<char>> {
    if field_failure(p) is Some {
        field_failure(p)
    } else if exists|i: int| first_failing_resource(p.resources@, i) {
        let i = choose|i: int| first_failing_resource(p.resources@, i);
        resource_failure(p.resources@[i])
    } else {
        None
    }
}

/// `out` is the normalized form of `p`.
pub open spec fn normalized_as(out: ProjectWriteInput, p: ProjectWriteInput) -> bool {
    &&& out.slug@ == unicode_lowercase(trim(p.slug@))
    &&& out.name@ == trim(p.name@)
    &&& out.summary@ == trim(p.summary@)
    &&& out.primary_category@ == trim(p.primary_category@)
    &&& out.status@ == trim(p.status@)
    &&& out.critique@ == trim(p.critique@)
    &&& opt_view(out.highest_award) == spec_normalize_optional(opt_view(p.highest_award))
    &&& opt_view(out.owner_name) == spec_normalize_optional(opt_view(p.owner_name))
    &&& opt_view(out.source_name) == spec_normalize_optional(opt_view(p.source_name))
    &&& opt_view(out.cover_mode) == normalized_cover_mode(p.cover_mode)
    &&& opt_view(out.cover_title) == spec_normalize_optional(opt_view(p.cover_title))
    &&& opt_view(out.cover_subtitle) == spec_normalize_optional(opt_view(p.cover_subtitle))
    &&& opt_view(out.cover_tone) == spec_normalize_optional(opt_view(p.cover_tone))
    &&& strings_view(out.tags@) == take_items(dedup_tags(strings_view(p.tags@)), 20)
    &&& strings_view(out.cover_keywords@) == take_items(
        nonblank_trimmed(strings_view(p.cover_keywords@)),
        3,
    )
    &&& out.resources@.len() == p.resources@.len()
    &&& forall|i: int|
        0 <= i < out.resources@.len() ==> resource_normalized_as(
            #[trigger] out.resources@[i],
            p.resources@[i],
        )
}

/// The kept keywords are trimmed and not blank.
proof fn lemma_nonblank_trimmed(items: Seq<Seq<char>>)
    ensures
        forall|k: int|
            0 <= k < nonblank_trimmed(items).len() ==> trim(#[trigger] nonblank_trimmed(items)[k]).len()
                > 0 && nonblank_trimmed(items)[k] == trim(nonblank_trimmed(items)[k]),
    decreases items.len(),
{
    if items.len() > 0 {
        lemma_nonblank_trimmed(items.drop_last());
        crate::text::lemma_trim_idempotent(items.last());
        let kept = nonblank_trimmed(items.drop_last());
        let t = trim(items.last());
        if t.len() > 0 {
            assert(nonblank_trimmed(items) == kept.push(t));
            assert forall|k: int| 0 <= k < kept.push(t).len() implies trim(
                #[trigger] kept.push(t)[k],
            ).len() > 0 && kept.push(t)[k] == trim(kept.push(t)[k]) by {
                if k < kept.len() {
                    assert(kept.push(t)[k] == kept[k]);
                }
            }
        }
    }
}

/// A normalized project has at most 20 tags and 3 cover keywords, each
/// trimmed and not blank, and no two tags that differ only in case.
pub proof fn law_normalized_lists_are_clean(out: ProjectWriteInput, p: ProjectWriteInput)
    requires
        normalized_as(out, p),
    ensures
        out.tags@.len() <= 20,
        out.cover_keywords@.len() <= 3,
        distinct_by_lowercase(strings_view(out.tags@)),
        forall|k: int|
            0 <= k < out.tags@.len() ==> trim(#[trigger] out.tags@[k]@).len() > 0
                && out.tags@[k]@ == trim(out.tags@[k]@),
        forall|k: int|
            0 <= k < out.cover_keywords@.len() ==> trim(#[trigger] out.cover_keywords@[k]@).len() > 0
                && out.cover_keywords@[k]@ == trim(out.cover_keywords@[k]@),
{
    let tags = dedup_tags(strings_view(p.tags@));
    let keywords = nonblank_trimmed(strings_view(p.cover_keywords@));
    lemma_dedup_distinct(strings_view(p.tags@));
    lemma_nonblank_trimmed(strings_view(p.cover_keywords@));
    assert(strings_view(out.tags@).len() == out.tags@.len());
    assert(strings_view(out.cover_keywords@).len() == out.cover_keywords@.len());
    assert forall|k: int| 0 <= k < out.tags@.len() implies trim(#[trigger] out.tags@[k]@).len() > 0
        && out.tags@[k]@ == trim(out.tags@[k]@) by {
        assert(strings_view(out.tags@)[k] == out.tags@[k]@);
        assert(strings_view(out.tags@)[k] == tags[k]);
    }
    assert forall|k: int| 0 <= k < out.cover_keywords@.len() implies trim(
        #[trigger] out.cover_keywords@[k]@,
    ).len() > 0 && out.cover_keywords@[k]@ == trim(out.cover_keywords@[k]@) by {
        assert(strings_view(out.cover_keywords@)[k] == out.cover_keywords@[k]@);
        assert(strings_view(out.cover_keywords@)[k] == keywords[k]);
    }
    assert forall|i: int, j: int| 0 <= i < j < strings_view(out.tags@).len() implies unicode_lowercase(
        #[trigger] strings_view(out.tags@)[i],
    ) != unicode_lowercase(#[trigger] strings_view(out.tags@)[j]) by {
        assert(strings_view(out.tags@)[i] == tags[i]);
        assert(strings_view(out.tags@)[j] == tags[j]);
    }
}

/// A list whose entries are trimmed, not blank and distinct by lower-case
/// form comes out of tag deduplication unchanged.
proof fn lemma_dedup_keeps_clean(tags: Seq<Seq<char>>)
    requires
        distinct_by_lowercase(tags),
        forall|k: int| 0 <= k < tags.len() ==> (#[trigger] tags[k]).len() > 0 && tags[k] == trim(tags[k]),
    ensures
        dedup_tags(tags) == tags,
    decreases tags.len(),
{
    if tags.len() > 0 {
        let rest = tags.drop_last();
        assert forall|k: int| 0 <= k < rest.len() implies (#[trigger] rest[k]).len() > 0 && rest[k] == trim(
            rest[k],
        ) by {
            assert(rest[k] == tags[k]);
        }
        assert forall|i: int, j: int| 0 <= i < j < rest.len() implies unicode_lowercase(
            #[trigger] rest[i],
        ) != unicode_lowercase(#[trigger] rest[j]) by {
            assert(rest[i] == tags[i] && rest[j] == tags[j]);
        }
        lemma_dedup_keeps_clean(rest);
        let t = trim(tags.last());
        assert(t == tags[tags.len() - 1]);
        assert(!exists|k: int|
            0 <= k < rest.len() && unicode_lowercase(#[trigger] rest[k]) == unicode_lowercase(t)) by {
            assert forall|k: int| 0 <= k < rest.len() implies unicode_lowercase(#[trigger] rest[k])
                != unicode_lowercase(t) by {
                assert(rest[k] == tags[k]);
            }
        }
        assert(rest.push(t) =~= tags);
    }
}

/// A list whose entries are trimmed and not blank comes out of keyword
/// cleaning unchanged.
proof fn lemma_nonblank_keeps_clean(items: Seq<Seq<char>>)
    requires
        forall|k: int| 0 <= k < items.len() ==> (#[trigger] items[k]).len() > 0 && items[k] == trim(items[k]),
    ensures
        nonblank_trimmed(items) == items,
    decreases items.len(),
{
    if items.len() > 0 {
        let rest = items.drop_last();
        assert forall|k: int| 0 <= k < rest.len() implies (#[trigger] rest[k]).len() > 0 && rest[k] == trim(
            rest[k],
        ) by {
            assert(rest[k] == items[k]);
        }
        lemma_nonblank_keeps_clean(rest);
        assert(rest.push(trim(items.last())) =~= items);
    }
}

/// Normalizing an optional text twice is normalizing it once.
proof fn lemma_normalize_optional_idempotent(o: Option<Seq<char>>)
    ensures
        spec_normalize_optional(spec_normalize_optional(o)) == spec_normalize_optional(o),
{
    if let Some(s) = o {
        crate::text::lemma_trim_idempotent(s);
    }
}

/// Normalizing a normalized project again changes none of its trimmed texts,
/// optional texts, tags or cover keywords.
pub proof fn law_normalizing_again_changes_nothing(
    out: ProjectWriteInput,
    again: ProjectWriteInput,
    p: ProjectWriteInput,
)
    requires
        normalized_as(out, p),
        normalized_as(again, out),
    ensures
        again.name@ == out.name@,
        again.summary@ == out.summary@,
        again.primary_category@ == out.primary_category@,
        again.status@ == out.status@,
        again.critique@ == out.critique@,
        opt_view(again.highest_award) == opt_view(out.highest_award),
        opt_view(again.owner_name) == opt_view(out.owner_name),
        opt_view(again.source_name) == opt_view(out.source_name),
        opt_view(again.cover_title) == opt_view(out.cover_title),
        opt_view(again.cover_subtitle) == opt_view(out.cover_subtitle),
        opt_view(again.cover_tone) == opt_view(out.cover_tone),
        strings_view(again.tags@) == strings_view(out.tags@),
        strings_view(again.cover_keywords@) == strings_view(out.cover_keywords@),
{
    crate::text::lemma_trim_idempotent(p.name@);
    crate::text::lemma_trim_idempotent(p.summary@);
    crate::text::lemma_trim_idempotent(p.primary_category@);
    crate::text::lemma_trim_idempotent(p.status@);
    crate::text::lemma_trim_idempotent(p.critique@);
    lemma_normalize_optional_idempotent(opt_view(p.highest_award));
    lemma_normalize_optional_idempotent(opt_view(p.owner_name));
    lemma_normalize_optional_idempotent(opt_view(p.source_name));
    lemma_normalize_optional_idempotent(opt_view(p.cover_title));
    lemma_normalize_optional_idempotent(opt_view(p.cover_subtitle));
    lemma_normalize_optional_idempotent(opt_view(p.cover_tone));
    law_normalized_lists_are_clean(out, p);
    let tags = strings_view(out.tags@);
    assert forall|k: int| 0 <= k < tags.len() implies (#[trigger] tags[k]).len() > 0 && tags[k] == trim(
        tags[k],
    ) by {
        assert(tags[k] == out.tags@[k]@);
    }
    lemma_dedup_keeps_clean(tags);
    let keywords = strings_view(out.cover_keywords@);
    assert forall|k: int| 0 <= k < keywords.len() implies (#[trigger] keywords[k]).len() > 0 && keywords[k]
        == trim(keywords[k]) by {
        assert(keywords[k] == out.cover_keywords@[k]@);
    }
    lemma_nonblank_keeps_clean(keywords);
}

/// A word of lower-case ASCII letters.
pub open spec fn lower_word(s: Seq<char>) -> bool {
    &&& s.len() > 0
    &&& forall|i: int| 0 <= i < s.len() ==> 'a' <= #[trigger] s[i] && s[i] <= 'z'
}

/// A word of lower-case letters is its own trim and its own lower case.
proof fn lemma_lower_word_settled(s: Seq<char>)
    requires
        lower_word(s),
    ensures
        trim(s) == s,
        unicode_lowercase(s) == s,
{
    assert(s[0] == s[0]);
    assert(s.last() == s[s.len() - 1]);
    crate::text::lemma_trim_plain(s);
    crate::text::lemma_lowercase_plain(s);
}

/// The resource kinds and the cover modes are words of lower-case letters.
proof fn lemma_listed_words()
    ensures
        forall|k: int| 0 <= k < RESOURCE_TYPES@.len() ==> lower_word(#[trigger] RESOURCE_TYPES@[k]@),
        forall|k: int| 0 <= k < COVER_MODES@.len() ==> lower_word(#[trigger] COVER_MODES@[k]@),
{
    reveal_strlit("github");
    reveal_strlit("baidu");
    reveal_strlit("document");
    reveal_strlit("presentation");
    reveal_strlit("archive");
    reveal_strlit("video");
    reveal_strlit("image");
    reveal_strlit("link");
    reveal_strlit("manual");
    reveal_strlit("resource");
    reveal_strlit("text");
}

/// A listed word is its own trim and its own lower case.
proof fn lemma_listed_settled(s: Seq<char>, options: Seq<&str>)
    requires
        one_of(s, options),
        forall|k: int| 0 <= k < options.len() ==> lower_word(#[trigger] options[k]@),
    ensures
        trim(s) == s,
        unicode_lowercase(s) == s,
{
    let k = choose|k: int| 0 <= k < options.len() && #[trigger] options[k]@ == s;
    lemma_lower_word_settled(options[k]@);
}

/// Where some resource is refused, a first refused one exists.
proof fn lemma_first_failing_exists(rs: Seq<ProjectResourceInput>, i: int)
    requires
        0 <= i < rs.len(),
        resource_failure(rs[i]) is Some,
    ensures
        exists|j: int| first_failing_resource(rs, j),
    decreases i,
{
    if exists|k: int| 0 <= k < i && resource_failure(#[trigger] rs[k]) is Some {
        let k = choose|k: int| 0 <= k < i && resource_failure(#[trigger] rs[k]) is Some;
        lemma_first_failing_exists(rs, k);
    } else {
        assert(first_failing_resource(rs, i));
    }
}

/// A resource that normalization accepted is accepted again and comes out
/// as it went in.
proof fn lemma_resource_settled(out: ProjectResourceInput, r: ProjectResourceInput)
    requires
        resource_failure(r) is None,
        resource_normalized_as(out, r),
    ensures
        resource_failure(out) is None,
        resource_normalized_as(out, out),
{
    lemma_listed_words();
    lemma_listed_settled(out.resource_type@, RESOURCE_TYPES@);
    crate::text::lemma_trim_idempotent(r.title@);
    lemma_normalize_optional_idempotent(opt_view(r.id));
    lemma_normalize_optional_idempotent(opt_view(r.url));
    lemma_normalize_optional_idempotent(opt_view(r.source_import_job_id));
    lemma_normalize_optional_idempotent(opt_view(r.source_artifact_id));
}

/// A normalized project passes normalization again and comes out as it went
/// in: normalizing is idempotent.
pub proof fn law_normalized_project_is_settled(out: ProjectWriteInput, p: ProjectWriteInput)
    requires
        input_failure(p) is None,
        normalized_as(out, p),
    ensures
        input_failure(out) is None,
        normalized_as(out, out),
{
    assert(field_failure(p) is None);
    assert forall|i: int| 0 <= i < p.resources@.len() implies resource_failure(
        #[trigger] p.resources@[i],
    ) is None by {
        if resource_failure(p.resources@[i]) is Some {
            lemma_first_failing_exists(p.resources@, i);
        }
    }
    assert forall|i: int| 0 <= i < out.resources@.len() implies resource_failure(
        #[trigger] out.resources@[i],
    ) is None && resource_normalized_as(out.resources@[i], out.resources@[i]) by {
        lemma_resource_settled(out.resources@[i], p.resources@[i]);
    }
    assert(!exists|i: int| first_failing_resource(out.resources@, i));
    // The texts and the optional texts.
    crate::text::lemma_trim_idempotent(p.name@);
    crate::text::lemma_trim_idempotent(p.summary@);
    crate::text::lemma_trim_idempotent(p.primary_category@);
    crate::text::lemma_trim_idempotent(p.status@);
    crate::text::lemma_trim_idempotent(p.critique@);
    lemma_normalize_optional_idempotent(opt_view(p.highest_award));
    lemma_normalize_optional_idempotent(opt_view(p.owner_name));
    lemma_normalize_optional_idempotent(opt_view(p.source_name));
    lemma_normalize_optional_idempotent(opt_view(p.cover_title));
    lemma_normalize_optional_idempotent(opt_view(p.cover_subtitle));
    lemma_normalize_optional_idempotent(opt_view(p.cover_tone));
    // The slug.
    let slug = out.slug@;
    assert(spec_valid_slug(slug));
    assert(slug[0] == slug[0] && slug.last() == slug[slug.len() - 1]);
    crate::text::lemma_trim_plain(slug);
    assert forall|i: int| 0 <= i < slug.len() implies (#[trigger] slug[i] as u32) < 128
        && !crate::text::is_ascii_upper(slug[i]) by {
        assert(('a' <= slug[i] && slug[i] <= 'z') || ('0' <= slug[i] && slug[i] <= '9') || slug[i] == '-');
    }
    crate::text::lemma_lowercase_plain(slug);
    // The cover mode.
    lemma_listed_words();
    match normalized_cover_mode(p.cover_mode) {
        Some(m) => {
            lemma_listed_settled(m, COVER_MODES@);
        },
        None => {},
    }
    // The tags and keywords once more, within their limits.
    law_normalized_lists_are_clean(out, p);
    let tags = strings_view(out.tags@);
    assert forall|k: int| 0 <= k < tags.len() implies (#[trigger] tags[k]).len() > 0 && tags[k] == trim(
        tags[k],
    ) by {
        assert(tags[k] == out.tags@[k]@);
    }
    lemma_dedup_keeps_clean(tags);
    let keywords = strings_view(out.cover_keywords@);
    assert forall|k: int| 0 <= k < keywords.len() implies (#[trigger] keywords[k]).len() > 0 && keywords[k]
        == trim(keywords[k]) by {
        assert(keywords[k] == out.cover_keywords@[k]@);
    }
    lemma_nonblank_keeps_clean(keywords);
    assert(take_items(strings_view(out.tags@), 20) == strings_view(out.tags@));
    assert(take_items(strings_view(out.cover_keywords@), 3) == strings_view(out.cover_keywords@));
}

fn lowercase_string(s: &str) -> (r: String)
    ensures
        r@ == unicode_lowercase(s@),
{
    let v = chars_of(s);
    let l = to_lowercase(v.as_slice());
    string_of(l.as_slice())
}

fn normalize_resource(r: &ProjectResourceInput) -> (out: Result<ProjectResourceInput, AppError>)
    ensures
        match out {
            Ok(o) => resource_failure(*r) is None && resource_normalized_as(o, *r),
            Err(e) => resource_failure(*r) is Some && (e matches AppError::BadRequest(m) && m@
                == resource_failure(*r)->0),
        },
{
    let id = normalize_optional_ref(&r.id);
    let trimmed_type = crate::text::trim_str(r.resource_type.as_str());
    let resource_type = lowercase_string(trimmed_type.as_str());
    let title = crate::text::trim_str(r.title.as_str());
    let url = normalize_optional_ref(&r.url);
    let job = normalize_optional_ref(&r.source_import_job_id);
    let artifact = normalize_optional_ref(&r.source_artifact_id);
    let ty = chars_of(resource_type.as_str());
    if !is_one_of(ty.as_slice(), &RESOURCE_TYPES) {
        let mut m: Vec<char> = Vec::new();
        push_str(&mut m, "资源类型 ");
        push_str(&mut m, resource_type.as_str());
        push_str(&mut m, " 不受支持");
        proof {
            assert(m@ =~= "资源类型 "@ + ty@ + " 不受支持"@);
        }
        return Err(AppError::BadRequest(string_of(m.as_slice())));
    }
    if title.as_str().is_empty() {
        return Err(AppError::BadRequest(String::from_str("资源标题不能为空")));
    }
    if job.is_some() != artifact.is_some() {
        return Err(
            AppError::BadRequest(String::from_str("导入资源必须同时提供任务编号和附件编号")),
        );
    }
    if id.is_some() && artifact.is_some() {
        return Err(AppError::BadRequest(String::from_str("已有资源不能重复绑定导入附件")));
    }
    Ok(
        ProjectResourceInput {
            id,
            resource_type,
            title,
            url,
            source_import_job_id: job,
            source_artifact_id: artifact,
        },
    )
}

impl ProjectWriteInput {
    /// Trims every text, lower-cases the path and the cover mode, drops blank
    /// optional texts, de-duplicates the tags (at most 20) and keeps at most
    /// three cover keywords; then checks the rules in order and answers the
    /// first that is broken as a `BadRequest`.
    pub fn normalized(self) -> (r: Result<ProjectWriteInput, AppError>)
        ensures
            match r {
                Ok(out) => input_failure(self) is None && normalized_as(out, self),
                Err(e) => input_failure(self) is Some && (e matches AppError::BadRequest(m) && m@
                    == input_failure(self)->0),
            },
    {
        let slug_trimmed = crate::text::trim_str(self.slug.as_str());
        let slug = lowercase_string(slug_trimmed.as_str());
        let name = crate::text::trim_str(self.name.as_str());
        let summary = crate::text::trim_str(self.summary.as_str());
        let primary_category = crate::text::trim_str(self.primary_category.as_str());
        let status = crate::text::trim_str(self.status.as_str());
        let critique = crate::text::trim_str(self.critique.as_str());
        let highest_award = normalize_optional_ref(&self.highest_award);
        let owner_name = normalize_optional_ref(&self.owner_name);
        let source_name = normalize_optional_ref(&self.source_name);
        let cover_mode = match normalize_optional_ref(&self.cover_mode) {
            Some(m) => Some(lowercase_string(m.as_str())),
            None => None,
        };
        let cover_title = normalize_optional_ref(&self.cover_title);
        let cover_subtitle = normalize_optional_ref(&self.cover_subtitle);
        let cover_tone = normalize_optional_ref(&self.cover_tone);
        let name_chars = chars_of(name.as_str());
        let summary_chars = chars_of(summary.as_str());
        if name_chars.len() == 0 || summary_chars.len() == 0 {
            return Err(AppError::BadRequest(String::from_str("项目名和简介不能为空")));
        }
        if name_chars.len() > 120 || summary_chars.len() > 500 {
            return Err(AppError::BadRequest(String::from_str("项目名或简介过长")));
        }
        if !valid_slug(slug.as_str()) {
            return Err(
                AppError::BadRequest(String::from_str("项目路径只能包含小写字母、数字和连字符")),
            );
        }
        if !is_project_category(primary_category.as_str()) {
            return Err(AppError::BadRequest(String::from_str("项目类别不受支持")));
        }
        if status.as_str().is_empty() {
            return Err(AppError::BadRequest(String::from_str("项目状态不能为空")));
        }
        match &cover_mode {
            Some(m) => {
                let mc = chars_of(m.as_str());
                if !is_one_of(mc.as_slice(), &COVER_MODES) {
                    return Err(AppError::BadRequest(String::from_str("封面模式不受支持")));
                }
            },
            None => {},
        }
        let tags = normalize_tags(self.tags);
        let cover_keywords = normalize_keywords(self.cover_keywords);
        let ghost rs = self.resources@;
        let mut resources: Vec<ProjectResourceInput> = Vec::new();
        let mut i: usize = 0;
        while i < self.resources.len()
            invariant
                0 <= i <= rs.len(),
                rs == self.resources@,
                field_failure(self) is None,
                resources@.len() == i,
                forall|j: int| 0 <= j < i ==> resource_failure(#[trigger] rs[j]) is None,
                forall|j: int|
                    0 <= j < i ==> resource_normalized_as(#[trigger] resources@[j], rs[j]),
            decreases rs.len() - i,
        {
            match normalize_resource(&self.resources[i]) {
                Ok(o) => {
                    resources.push(o);
                },
                Err(e) => {
                    proof {
                        assert(first_failing_resource(rs, i as int));
                        assert forall|j: int| first_failing_resource(rs, j) implies j == i by {
                            if j < i {
                                assert(resource_failure(rs[j]) is None);
                            }
                            if j > i {
                                assert(resource_failure(rs[i as int]) is None);
                            }
                        }
                        assert(exists|k: int| first_failing_resource(self.resources@, k));
                    }
                    return Err(e);
                },
            }
            i += 1;
        }
        proof {
            assert forall|j: int| !first_failing_resource(rs, j) by {
                if 0 <= j < rs.len() {
                    assert(resource_failure(rs[j]) is None);
                }
            }
        }
        Ok(
            ProjectWriteInput {
                slug,
                name,
                summary,
                primary_category,
                highest_award,
                status,
                critique,
                owner_name,
                source_name,
                tags,
                resources,
                cover_mode,
                cover_title,
                cover_subtitle,
                cover_keywords,
                cover_tone,
            },
        )
    }
}


// ----------------------------------------------------------------------------
// Listing
// ----------------------------------------------------------------------------

/// A category filter of the list is refused unless it names one of the five
/// categories exactly.
pub fn validate_list_category(category: &Option<String>) -> (r: Result<(), AppError>)
    ensures
        r is Ok <==> (category matches Some(c) ==> spec_is_project_category(c@)),
        r matches Err(e) ==> (e matches AppError::BadRequest(m) && m@ == "项目类别不受支持"@),
{
    match category {
        Some(c) => {
            if is_project_category(c.as_str()) {
                Ok(())
            } else {
                Err(AppError::BadRequest(String::from_str("项目类别不受支持")))
            }
        },
        None => Ok(()),
    }
}

/// The search text of the list: trimmed and in lower case, absent when blank.
pub open spec fn spec_search_needle(q: Option<Seq<char>>) -> Option<Seq<char>> {
    match q {
        Some(s) => if unicode_lowercase(trim(s)).len() == 0 {
            None
        } else {
            Some(unicode_lowercase(trim(s)))
        },
        None => None,
    }
}

pub fn search_needle(q: &Option<String>) -> (r: Option<String>)
    ensures
        opt_view(r) == spec_search_needle(opt_view(*q)),
{
    match q {
        Some(s) => {
            let t = crate::text::trim_str(s.as_str());
            let l = lowercase_string(t.as_str());
            if l.as_str().is_empty() {
                None
            } else {
                Some(l)
            }
        },
        None => None,
    }
}

/// What the search looks in: name, summary and highest award, separated by spaces.
pub open spec fn listing_text(name: Seq<char>, summary: Seq<char>, award: Option<Seq<char>>) -> Seq<
    char,
> {
    let a = match award {
        Some(a) => a,
        None => Seq::empty(),
    };
    name + " "@ + summary + " "@ + a
}

/// The highest award's text; none is empty.
pub open spec fn award_text(award: Option<Seq<char>>) -> Seq<char> {
    match award {
        Some(a) => a,
        None => Seq::empty(),
    }
}

/// No category filter, or the project's own category.
pub open spec fn category_matches(category: Option<Seq<char>>, primary_category: Seq<char>) -> bool {
    category matches Some(c) ==> c == primary_category
}

/// The searched texts are all ASCII.
pub open spec fn ascii_listing(name: Seq<char>, summary: Seq<char>, award: Option<Seq<char>>) -> bool {
    &&& crate::text::is_ascii_text(name)
    &&& crate::text::is_ascii_text(summary)
    &&& crate::text::is_ascii_text(award_text(award))
}

/// On ASCII text, the searched text lower-cases piece by piece.
proof fn lemma_ascii_listing(name: Seq<char>, summary: Seq<char>, award: Option<Seq<char>>)
    requires
        ascii_listing(name, summary, award),
    ensures
        unicode_lowercase(listing_text(name, summary, award)) == ascii_lowercase(name) + " "@
            + ascii_lowercase(summary) + " "@ + ascii_lowercase(award_text(award)),
{
    reveal_strlit(" ");
    let t = listing_text(name, summary, award);
    assert(t =~= name + " "@ + summary + " "@ + award_text(award));
    assert forall|i: int| 0 <= i < t.len() implies (#[trigger] t[i] as u32) < 128 by {
        let a = award_text(award);
        if i < name.len() {
            assert(t[i] == name[i]);
        } else if i == name.len() {
            assert(t[i] == ' ');
        } else if i < name.len() + 1 + summary.len() {
            assert(t[i] == summary[i - name.len() - 1]);
        } else if i == name.len() + 1 + summary.len() {
            assert(t[i] == ' ');
        } else {
            assert(t[i] == a[i - name.len() - 2 - summary.len()]);
        }
    }
    assert(ascii_lowercase(" "@) =~= " "@);
    assert(ascii_lowercase(t) =~= ascii_lowercase(name) + " "@ + ascii_lowercase(summary) + " "@
        + ascii_lowercase(award_text(award)));
}

pub open spec fn spec_is_listed(
    category: Option<Seq<char>>,
    needle: Option<Seq<char>>,
    primary_category: Seq<char>,
    name: Seq<char>,
    summary: Seq<char>,
    award: Option<Seq<char>>,
) -> bool {
    &&& (category matches Some(c) ==> c == primary_category)
    &&& (needle matches Some(n) ==> contains(
        unicode_lowercase(listing_text(name, summary, award)),
        n,
    ))
}

/// Whether a classified project shows in the list for a category filter and
/// a search needle (see `search_needle`).
pub fn is_listed(
    category: &Option<String>,
    needle: &Option<String>,
    primary_category: &str,
    name: &str,
    summary: &str,
    highest_award: &Option<String>,
) -> (r: bool)
    ensures
        r == spec_is_listed(
            opt_view(*category),
            opt_view(*needle),
            primary_category@,
            name@,
            summary@,
            opt_view(*highest_award),
        ),
        // A category filter keeps only projects of that category.
        (category matches Some(c) && c@ != primary_category@) ==> !r,
        // Without a needle, every project of the category is listed.
        category_matches(opt_view(*category), primary_category@) && needle is None ==> r,
        // On ASCII text, a needle is looked for, case-insensitively, in the
        // name, the summary and the highest award, separated by spaces.
        category_matches(opt_view(*category), primary_category@) && ascii_listing(
            name@,
            summary@,
            opt_view(*highest_award),
        ) && needle is Some ==> (r <==> contains(
            ascii_lowercase(name@) + " "@ + ascii_lowercase(summary@) + " "@ + ascii_lowercase(
                award_text(opt_view(*highest_award)),
            ),
            needle->0@,
        )),
        category_matches(opt_view(*category), primary_category@) && ascii_listing(
            name@,
            summary@,
            opt_view(*highest_award),
        ) && needle is Some && (contains(ascii_lowercase(name@), needle->0@) || contains(
            ascii_lowercase(summary@),
            needle->0@,
        ) || contains(ascii_lowercase(award_text(opt_view(*highest_award))), needle->0@)) ==> r,
{
    proof {
        if ascii_listing(name@, summary@, opt_view(*highest_award)) {
            lemma_ascii_listing(name@, summary@, opt_view(*highest_award));
            if let Some(n) = needle {
                let l = ascii_lowercase(name@);
                let m = ascii_lowercase(summary@);
                let t = ascii_lowercase(award_text(opt_view(*highest_award)));
                if contains(l, n@) {
                    crate::text::lemma_contains_within(Seq::empty(), l, " "@ + m + " "@ + t, n@);
                    assert(Seq::<char>::empty() + l + (" "@ + m + " "@ + t) =~= l + " "@ + m + " "@ + t);
                }
                if contains(m, n@) {
                    crate::text::lemma_contains_within(l + " "@, m, " "@ + t, n@);
                    assert((l + " "@) + m + (" "@ + t) =~= l + " "@ + m + " "@ + t);
                }
                if contains(t, n@) {
                    crate::text::lemma_contains_within(l + " "@ + m + " "@, t, Seq::empty(), n@);
                    assert((l + " "@ + m + " "@) + t + Seq::<char>::empty() =~= l + " "@ + m + " "@ + t);
                }
            }
        }
    }
    match category {
        Some(c) => {
            let cc = chars_of(c.as_str());
            let pc = chars_of(primary_category);
            if !crate::text::chars_eq(cc.as_slice(), pc.as_slice()) {
                return false;
            }
        },
        None => {},
    }
    match needle {
        Some(n) => {
            let mut text = chars_of(name);
            push_str(&mut text, " ");
            push_str(&mut text, summary);
            push_str(&mut text, " ");
            match highest_award {
                Some(a) => push_str(&mut text, a.as_str()),
                None => {},
            }
            proof {
                reveal_strlit(" ");
                assert(text@ =~= listing_text(name@, summary@, opt_view(*highest_award)));
            }
            let lower = to_lowercase(text.as_slice());
            let nc = chars_of(n.as_str());
            crate::text::contains_chars(lower.as_slice(), nc.as_slice())
        },
        None => true,
    }
}

// ----------------------------------------------------------------------------
// Paths and imports
// ----------------------------------------------------------------------------

pub open spec fn slug_taken_message(slug: Seq<char>) -> Seq<char> {
    "项目路径 "@ + slug + " 已存在"@
}

/// A project path may be used by a project when no project holds it, or the
/// project itself holds it (`project_id`, absent for a new project).
pub fn check_slug_available(slug: &str, slug_owner: &Option<String>, project_id: &Option<String>) -> (r:
    Result<(), AppError>)
    ensures
        r is Ok <==> (slug_owner matches Some(o) ==> (project_id matches Some(id) && o@ == id@)),
        r matches Err(e) ==> (e matches AppError::Conflict(m) && m@ == slug_taken_message(slug@)),
{
    let free = match slug_owner {
        None => true,
        Some(o) => match project_id {
            Some(id) => {
                let oc = chars_of(o.as_str());
                let ic = chars_of(id.as_str());
                crate::text::chars_eq(oc.as_slice(), ic.as_slice())
            },
            None => false,
        },
    };
    if free {
        Ok(())
    } else {
        let mut m: Vec<char> = Vec::new();
        push_str(&mut m, "项目路径 ");
        push_str(&mut m, slug);
        push_str(&mut m, " 已存在");
        Err(AppError::Conflict(string_of(m.as_slice())))
    }
}

/// The statuses of an import job whose draft may be committed.
pub const COMMITTABLE_STATUSES: [&'static str; 3] = ["completed", "agent_queued", "agent_running"];

/// Who may commit an import job's draft, and when: its creator or a super
/// administrator, once the job has been organised.
pub fn check_import_commit(identity: &FeiyueIdentity, job_owner_sid: &str, job_status: &str) -> (r:
    Result<(), AppError>)
    ensures
        r is Ok <==> ((job_owner_sid@ == identity.sid@ || identity.spec_is_superadmin()) && one_of(
            job_status@,
            COMMITTABLE_STATUSES@,
        )),
        r matches Err(e) ==> (if job_owner_sid@ != identity.sid@ && !identity.spec_is_superadmin() {
            e is Forbidden
        } else {
            e matches AppError::Conflict(m) && m@ == "导入任务尚未整理完成"@
        }),
{
    let owner = chars_of(job_owner_sid);
    let sid = chars_of(identity.sid.as_str());
    if !crate::text::chars_eq(owner.as_slice(), sid.as_slice()) && !identity.is_superadmin() {
        return Err(AppError::Forbidden);
    }
    let status = chars_of(job_status);
    if !is_one_of(status.as_slice(), &COMMITTABLE_STATUSES) {
        return Err(AppError::Conflict(String::from_str("导入任务尚未整理完成")));
    }
    Ok(())
}

pub open spec fn slug_in_use_message(slug: Seq<char>) -> Seq<char> {
    "项目路径 "@ + slug + " 已被其他项目使用"@
}

/// Which project an import commit writes: the project the job was committed
/// to before, else the project that holds the path, else a new project with
/// `fresh_id`. The second item says whether the project is new. A job already
/// committed to one project cannot take a path that another project holds.
pub fn plan_import_commit(
    committed: Option<String>,
    slug_owner: Option<String>,
    slug: &str,
    fresh_id: String,
) -> (r: Result<(String, bool), AppError>)
    ensures
        match (committed, slug_owner) {
            (Some(c), Some(o)) => if c@ != o@ {
                r matches Err(e) && (e matches AppError::Conflict(m) && m@ == slug_in_use_message(
                    slug@,
                ))
            } else {
                r matches Ok((id, created)) && id@ == c@ && !created
            },
            (Some(c), None) => r matches Ok((id, created)) && id@ == c@ && !created,
            (None, Some(o)) => r matches Ok((id, created)) && id@ == o@ && !created,
            (None, None) => r matches Ok((id, created)) && id@ == fresh_id@ && created,
        },
{
    match (committed, slug_owner) {
        (Some(c), Some(o)) => {
            let cc = chars_of(c.as_str());
            let oc = chars_of(o.as_str());
            if !crate::text::chars_eq(cc.as_slice(), oc.as_slice()) {
                let mut m: Vec<char> = Vec::new();
                push_str(&mut m, "项目路径 ");
                push_str(&mut m, slug);
                push_str(&mut m, " 已被其他项目使用");
                Err(AppError::Conflict(string_of(m.as_slice())))
            } else {
                Ok((c, false))
            }
        },
        (Some(c), None) => Ok((c, false)),
        (None, Some(o)) => Ok((o, false)),
        (None, None) => Ok((fresh_id, true)),
    }
}

/// `plan_import_commit` with a freshly drawn project id where a new project
/// is needed.
pub fn import_commit_target(committed: Option<String>, slug_owner: Option<String>, slug: &str) -> (r:
    Result<(String, bool), AppError>)
    ensures
        match (committed, slug_owner) {
            (Some(c), Some(o)) => if c@ != o@ {
                r matches Err(e) && (e matches AppError::Conflict(m) && m@ == slug_in_use_message(
                    slug@,
                ))
            } else {
                r matches Ok((id, created)) && id@ == c@ && !created
            },
            (Some(c), None) => r matches Ok((id, created)) && id@ == c@ && !created,
            (None, Some(o)) => r matches Ok((id, created)) && id@ == o@ && !created,
            (None, None) => r matches Ok((id, created)) && id@.len() == 36 && created,
        },
{
    let fresh = if committed.is_none() && slug_owner.is_none() {
        fresh_id()
    } else {
        String::new()
    };
    plan_import_commit(committed, slug_owner, slug, fresh)
}

// ----------------------------------------------------------------------------
// Stored and displayed values
// ----------------------------------------------------------------------------

/// A cover is generated after a write unless the cover mode is `manual`.
pub fn wants_generated_cover(input: &ProjectWriteInput) -> (r: bool)
    ensures
        r == (opt_view(input.cover_mode) != Some("manual"@)),
{
    match &input.cover_mode {
        Some(m) => {
            let mc = chars_of(m.as_str());
            !eq_lit(mc.as_slice(), "manual")
        },
        None => true,
    }
}

fn text_or(o: &Option<String>, default: &str) -> (r: String)
    ensures
        r@ == (match opt_view(*o) {
            Some(t) => t,
            None => default@,
        }),
{
    match o {
        Some(t) => t.clone(),
        None => String::from_str(default),
    }
}

/// The cover mode that is stored: `text` where none was given.
pub fn stored_cover_mode(input: &ProjectWriteInput) -> (r: String)
    ensures
        r@ == (match opt_view(input.cover_mode) {
            Some(t) => t,
            None => "text"@,
        }),
{
    text_or(&input.cover_mode, "text")
}

/// The cover tone that is stored: `slate` where none was given.
pub fn stored_cover_tone(input: &ProjectWriteInput) -> (r: String)
    ensures
        r@ == (match opt_view(input.cover_tone) {
            Some(t) => t,
            None => "slate"@,
        }),
{
    text_or(&input.cover_tone, "slate")
}

/// The cover title shown: `项目封面` where none is stored.
pub fn displayed_cover_title(title: &Option<String>) -> (r: String)
    ensures
        r@ == (match opt_view(*title) {
            Some(t) => t,
            None => "项目封面"@,
        }),
{
    text_or(title, "项目封面")
}

/// The cover subtitle shown: empty where none is stored.
pub fn displayed_cover_subtitle(subtitle: &Option<String>) -> (r: String)
    ensures
        r@ == (match opt_view(*subtitle) {
            Some(t) => t,
            None => Seq::<char>::empty(),
        }),
{
    match subtitle {
        Some(t) => t.clone(),
        None => String::new(),
    }
}

/// A resource row as stored.
#[derive(Clone, Debug)]
pub struct ProjectResourceRow {
    pub id: String,
    pub resource_type: String,
    pub title: String,
    pub url: Option<String>,
    pub object_key: Option<String>,
    pub source_name: Option<String>,
    pub mime_type: Option<String>,
    pub size_bytes: Option<i64>,
    pub display_path: Option<String>,
    pub preview_kind: Option<String>,
}

pub open spec fn resource_link(slug: Seq<char>, id: Seq<char>, action: Seq<char>) -> Seq<char> {
    "/api/v1/projects/"@ + slug + "/resources/"@ + id + "/"@ + action
}

fn link(slug: &str, id: &str, action: &str) -> (r: String)
    ensures
        r@ == resource_link(slug@, id@, action@),
{
    let mut m: Vec<char> = Vec::new();
    push_str(&mut m, "/api/v1/projects/");
    push_str(&mut m, slug);
    push_str(&mut m, "/resources/");
    push_str(&mut m, id);
    push_str(&mut m, "/");
    push_str(&mut m, action);
    string_of(m.as_slice())
}

/// A stored resource as the API shows it: stored files get a content and a
/// download link under the project's path.
pub fn project_resource(slug: &str, row: ProjectResourceRow) -> (r: ProjectResource)
    ensures
        r.id@ == row.id@,
        r.resource_type@ == row.resource_type@,
        r.title@ == row.title@,
        opt_view(r.url) == opt_view(row.url),
        opt_view(r.source_name) == opt_view(row.source_name),
        opt_view(r.mime_type) == opt_view(row.mime_type),
        r.size_bytes == row.size_bytes,
        opt_view(r.display_path) == opt_view(row.display_path),
        opt_view(r.preview_kind) == opt_view(row.preview_kind),
        opt_view(r.content_url) == (if row.object_key is Some {
            Some(resource_link(slug@, row.id@, "content"@))
        } else {
            None
        }),
        opt_view(r.download_url) == (if row.object_key is Some {
            Some(resource_link(slug@, row.id@, "download"@))
        } else {
            None
        }),
{
    let has_object = row.object_key.is_some();
    let content_url = if has_object {
        Some(link(slug, row.id.as_str(), "content"))
    } else {
        None
    };
    let download_url = if has_object {
        Some(link(slug, row.id.as_str(), "download"))
    } else {
        None
    };
    ProjectResource {
        id: row.id,
        resource_type: row.resource_type,
        title: row.title,
        url: row.url,
        source_name: row.source_name,
        mime_type: row.mime_type,
        size_bytes: row.size_bytes,
        display_path: row.display_path,
        preview_kind: row.preview_kind,
        content_url,
        download_url,
    }
}

/// What `serde_json::from_str::<Vec<String>>` gives for a text, `None` for an error.
pub uninterp spec fn json_decode_strings(text: Seq<char>) -> Option<Seq<Seq<char>>>;

/// Calls `serde_json::from_str::<Vec<String>>`; an error becomes `None`.
#[verifier::external_body]
fn decode_strings(text: &str) -> (r: Option<Vec<String>>)
    ensures
        match r {
            Some(v) => json_decode_strings(text@) == Some(strings_view(v@)),
            None => json_decode_strings(text@) is None,
        },
{
    serde_json::from_str::<Vec<String>>(text).ok()
}

/// The cover keywords as stored: a JSON array of strings.
pub fn keywords_json(keywords: &Vec<String>) -> (r: String)
    ensures
        r@ == json_string_array(strings_view(keywords@)),
{
    json_array_of(keywords)
}

/// The stored cover keywords read back; none where the text is no JSON list
/// of strings.
pub fn parse_keywords(value: &str) -> (r: Vec<String>)
    ensures
        strings_view(r@) == (match json_decode_strings(value@) {
            Some(items) => items,
            None => Seq::<Seq<char>>::empty(),
        }),
{
    match decode_strings(value) {
        Some(v) => v,
        None => Vec::new(),
    }
}

} // verus!
