//! The tag catalogue: formal tags that administrators keep, and the tag
//! suggestions that members send.

use vstd::prelude::*;

use crate::auth::FeiyueIdentity;
use crate::error::AppError;
use crate::projects::{normalize_optional_ref, opt_view, spec_normalize_optional};
use crate::text::{chars_of, chars_eq, string_of, trim, trim_chars};

verus! {

/// A formal tag.
#[derive(Clone, Debug)]
pub struct TagDefinition {
    pub id: String,
    pub name: String,
    pub group_name: String,
    pub color: Option<String>,
    pub sort_order: i64,
    pub is_active: bool,
    pub merged_into_id: Option<String>,
}

/// A new formal tag as an administrator writes it.
#[derive(Clone, Debug)]
pub struct TagCreateInput {
    pub name: String,
    pub group_name: String,
    pub color: Option<String>,
    pub sort_order: i64,
}

/// A change to a formal tag; what is absent stays as it is.
#[derive(Clone, Debug)]
pub struct TagUpdateInput {
    pub name: Option<String>,
    pub group_name: Option<String>,
    pub color: Option<String>,
    pub sort_order: Option<i64>,
    pub is_active: Option<bool>,
}

/// The tag into which another is merged.
#[derive(Clone, Debug)]
pub struct TagMergeInput {
    pub target_id: String,
}

/// A tag that a member suggests.
#[derive(Clone, Debug)]
pub struct TagSuggestionInput {
    pub name: String,
    pub group_name: Option<String>,
    pub reason: Option<String>,
}

/// The answer to a suggestion.
#[derive(Clone, Debug)]
pub struct TagSuggestionResponse {
    pub id: String,
    pub status: String,
}

/// Parameters of the tag list.
#[derive(Clone, Debug)]
pub struct TagListQuery {
    pub include_inactive: bool,
}

/// A required text: trimmed, 1 to 40 characters.
pub open spec fn spec_required(value: Seq<char>) -> Option<Seq<char>> {
    if trim(value).len() == 0 || trim(value).len() > 40 {
        None
    } else {
        Some(trim(value))
    }
}

/// The trimmed text, or a `BadRequest` with `message` where it is blank or
/// longer than 40 characters.
pub fn required(value: &str, message: &str) -> (r: Result<String, AppError>)
    ensures
        match r {
            Ok(t) => spec_required(value@) == Some(t@),
            Err(e) => spec_required(value@) is None && (e matches AppError::BadRequest(m) && m@
                == message@),
        },
{
    let v = chars_of(value);
    let t = trim_chars(v.as_slice());
    if t.len() == 0 || t.len() > 40 {
        Err(AppError::BadRequest(String::from_str(message)))
    } else {
        Ok(string_of(t.as_slice()))
    }
}

/// Inactive tags are listed only to tag administrators who ask for them.
pub fn lists_inactive(query: &TagListQuery, identity: &FeiyueIdentity) -> (r: bool)
    ensures
        r == (query.include_inactive && identity.spec_can_manage_tags()),
{
    query.include_inactive && identity.can_manage_tags()
}

/// A new formal tag checked: name and group required, a blank colour absent.
/// The result is the name, the group and the colour.
pub fn prepare_tag_create(input: &TagCreateInput) -> (r: Result<
    (String, String, Option<String>),
    AppError,
>)
    ensures
        match r {
            Ok((name, group, color)) => {
                &&& spec_required(input.name@) == Some(name@)
                &&& spec_required(input.group_name@) == Some(group@)
                &&& opt_view(color) == spec_normalize_optional(opt_view(input.color))
            },
            Err(e) => e matches AppError::BadRequest(m) && if spec_required(input.name@) is None {
                m@ == "标签名称不能为空"@
            } else {
                spec_required(input.group_name@) is None && m@ == "标签分组不能为空"@
            },
        },
{
    let name = required(input.name.as_str(), "标签名称不能为空")?;
    let group = required(input.group_name.as_str(), "标签分组不能为空")?;
    let color = normalize_optional_ref(&input.color);
    Ok((name, group, color))
}

/// Why a change to a tag is refused, if it is.
pub open spec fn tag_update_failure(input: TagUpdateInput) -> Option<Seq<char>> {
    if input.name matches Some(n) && spec_required(n@) is None {
        Some("标签名称不能为空"@)
    } else if input.group_name matches Some(g) && spec_required(g@) is None {
        Some("标签分组不能为空"@)
    } else {
        None
    }
}

/// `out` is `current` with the change applied: given texts trimmed, the
/// given colour taken as it is, everything absent kept.
pub open spec fn tag_updated_as(out: TagDefinition, current: TagDefinition, input: TagUpdateInput) -> bool {
    &&& out.id@ == current.id@
    &&& out.name@ == (match input.name {
        Some(n) => trim(n@),
        None => current.name@,
    })
    &&& out.group_name@ == (match input.group_name {
        Some(g) => trim(g@),
        None => current.group_name@,
    })
    &&& opt_view(out.color) == (match input.color {
        Some(c) => Some(c@),
        None => opt_view(current.color),
    })
    &&& out.sort_order == (match input.sort_order {
        Some(o) => o,
        None => current.sort_order,
    })
    &&& out.is_active == (match input.is_active {
        Some(a) => a,
        None => current.is_active,
    })
    &&& opt_view(out.merged_into_id) == opt_view(current.merged_into_id)
}

/// What a tag is, as plain values.
pub open spec fn tag_view(t: TagDefinition) -> (
    Seq<char>,
    Seq<char>,
    Seq<char>,
    Option<Seq<char>>,
    i64,
    bool,
    Option<Seq<char>>,
) {
    (t.id@, t.name@, t.group_name@, opt_view(t.color), t.sort_order, t.is_active, opt_view(t.merged_into_id))
}

/// Applies a change to a tag.
pub fn apply_tag_update(current: TagDefinition, input: TagUpdateInput) -> (r: Result<
    TagDefinition,
    AppError,
>)
    ensures
        match r {
            Ok(out) => tag_update_failure(input) is None && tag_updated_as(out, current, input),
            Err(e) => tag_update_failure(input) is Some && (e matches AppError::BadRequest(m) && m@
                == tag_update_failure(input)->0),
        },
{
    let name = match &input.name {
        Some(n) => required(n.as_str(), "标签名称不能为空")?,
        None => current.name,
    };
    let group_name = match &input.group_name {
        Some(g) => required(g.as_str(), "标签分组不能为空")?,
        None => current.group_name,
    };
    let color = match input.color {
        Some(c) => Some(c),
        None => current.color,
    };
    let sort_order = match input.sort_order {
        Some(o) => o,
        None => current.sort_order,
    };
    let is_active = match input.is_active {
        Some(a) => a,
        None => current.is_active,
    };
    Ok(
        TagDefinition {
            id: current.id,
            name,
            group_name,
            color,
            sort_order,
            is_active,
            merged_into_id: current.merged_into_id,
        },
    )
}

/// A change that gives nothing leaves the tag as it is.
pub proof fn law_empty_update_keeps_tag(current: TagDefinition, input: TagUpdateInput, out: TagDefinition)
    requires
        input.name is None,
        input.group_name is None,
        input.color is None,
        input.sort_order is None,
        input.is_active is None,
        tag_updated_as(out, current, input),
    ensures
        tag_view(out) == tag_view(current),
{
}

/// Applying the same change twice gives what applying it once gives.
pub proof fn law_tag_update_idempotent(
    current: TagDefinition,
    input: TagUpdateInput,
    once: TagDefinition,
    twice: TagDefinition,
)
    requires
        tag_update_failure(input) is None,
        tag_updated_as(once, current, input),
        tag_updated_as(twice, once, input),
    ensures
        tag_update_failure(input) is None,
        tag_view(twice) == tag_view(once),
{
    if let Some(n) = input.name {
        crate::text::lemma_trim_idempotent(n@);
    }
    if let Some(g) = input.group_name {
        crate::text::lemma_trim_idempotent(g@);
    }
}

/// A tag cannot be merged into itself.
pub fn check_merge(id: &str, input: &TagMergeInput) -> (r: Result<(), AppError>)
    ensures
        r is Err <==> id@ == input.target_id@,
        r matches Err(e) ==> (e matches AppError::BadRequest(m) && m@ == "不能合并到自身"@),
{
    let a = chars_of(id);
    let b = chars_of(input.target_id.as_str());
    if chars_eq(a.as_slice(), b.as_slice()) {
        Err(AppError::BadRequest(String::from_str("不能合并到自身")))
    } else {
        Ok(())
    }
}

/// A suggestion checked: the name required, blank group and reason absent.
/// The result is the name, the group and the reason.
pub fn prepare_suggestion(input: &TagSuggestionInput) -> (r: Result<
    (String, Option<String>, Option<String>),
    AppError,
>)
    ensures
        match r {
            Ok((name, group, reason)) => {
                &&& spec_required(input.name@) == Some(name@)
                &&& opt_view(group) == spec_normalize_optional(opt_view(input.group_name))
                &&& opt_view(reason) == spec_normalize_optional(opt_view(input.reason))
            },
            Err(e) => spec_required(input.name@) is None && (e matches AppError::BadRequest(m)
                && m@ == "建议标签名称不能为空"@),
        },
{
    let name = required(input.name.as_str(), "建议标签名称不能为空")?;
    let group = normalize_optional_ref(&input.group_name);
    let reason = normalize_optional_ref(&input.reason);
    Ok((name, group, reason))
}

/// The answer to a stored suggestion: it waits for review.
pub fn suggestion_response(id: String) -> (r: TagSuggestionResponse)
    ensures
        r.id@ == id@,
        r.status@ == "pending"@,
{
    TagSuggestionResponse { id, status: String::from_str("pending") }
}

} // verus!
