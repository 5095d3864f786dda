//! What a member states explicitly in the project text of an import: the
//! project name, the owner, source and award, and formal tags. The text is
//! read line by line; a field is a line `label：value` (or `label: value`).

use vstd::prelude::*;

use crate::paths::{split_any, split_seq};
use crate::projects::take_items;
use crate::text::{
    ascii_lowercase, chars_eq, chars_of, is_one_of, one_of, slice_chars, string_of, take,
    take_chars, to_ascii_lowercase, trim, trim_chars,
};

verus! {

/// The characters that separate a label from its value.
pub open spec fn is_label_separator(c: char) -> bool {
    c == '：' || c == ':'
}

/// `k` is the first label separator of `line`.
pub open spec fn first_label_separator(line: Seq<char>, k: int) -> bool {
    &&& 0 <= k < line.len()
    &&& is_label_separator(line[k])
    &&& forall|j: int| 0 <= j < k ==> !is_label_separator(#[trigger] line[j])
}

/// `line.split_once(['：', ':'])`.
pub open spec fn split_label(line: Seq<char>) -> Option<(Seq<char>, Seq<char>)> {
    if exists|k: int| first_label_separator(line, k) {
        let k = choose|k: int| first_label_separator(line, k);
        Some((line.subrange(0, k), line.subrange(k + 1, line.len() as int)))
    } else {
        None
    }
}

/// The characters that end a field value.
pub open spec fn value_ends() -> Seq<char> {
    seq!['。', '；', ';']
}

/// A field value as read: trimmed, up to the first `。`, `；` or `;`, trimmed again.
pub open spec fn field_value(value: Seq<char>) -> Seq<char> {
    trim(split_seq(trim(value), value_ends())[0])
}

/// The value of one line for one of the labels, if the line gives one.
pub open spec fn line_field(line: Seq<char>, labels: Seq<&str>) -> Option<Seq<char>> {
    match split_label(trim(line)) {
        Some((label, value)) => if one_of(trim(label), labels) && field_value(value).len() > 0 {
            Some(take(field_value(value), 120))
        } else {
            None
        },
        None => None,
    }
}

/// The value of the first line that gives one.
pub open spec fn first_line_field(lines: Seq<Seq<char>>, labels: Seq<&str>) -> Option<Seq<char>>
    decreases lines.len(),
{
    if lines.len() == 0 {
        None
    } else if line_field(lines[0], labels) is Some {
        line_field(lines[0], labels)
    } else {
        first_line_field(lines.drop_first(), labels)
    }
}

/// The lines of a text. (`str::lines` also drops a `\r` before each line
/// break; every line is trimmed before use, so that changes nothing here.)
pub open spec fn text_lines(text: Seq<char>) -> Seq<Seq<char>> {
    split_seq(text, seq!['\n'])
}

/// The first value that the text gives for one of the labels, at most 120
/// characters.
pub open spec fn spec_explicit_field(prompt: Seq<char>, labels: Seq<&str>) -> Option<Seq<char>> {
    first_line_field(text_lines(prompt), labels)
}

/// Splits a line at its first label separator.
pub fn split_label_of(line: &[char]) -> (r: Option<(Vec<char>, Vec<char>)>)
    ensures
        match r {
            Some((l, v)) => split_label(line@) == Some((l@, v@)),
            None => split_label(line@) is None,
        },
{
    let mut i: usize = 0;
    while i < line.len()
        invariant
            0 <= i <= line@.len(),
            forall|j: int| 0 <= j < i ==> !is_label_separator(#[trigger] line@[j]),
        decreases line.len() - i,
    {
        if line[i] == '：' || line[i] == ':' {
            proof {
                assert(first_label_separator(line@, i as int));
                assert forall|k: int| first_label_separator(line@, k) implies k == i by {
                    if k < i {
                        assert(!is_label_separator(line@[k]));
                    }
                    if k > i {
                        assert(is_label_separator(line@[i as int]));
                    }
                }
            }
            let l = slice_chars(line, 0, i);
            let v = slice_chars(line, i + 1, line.len());
            return Some((l, v));
        }
        i += 1;
    }
    proof {
        assert forall|k: int| !first_label_separator(line@, k) by {
            if 0 <= k < line@.len() {
                assert(!is_label_separator(line@[k]));
            }
        }
    }
    None
}

fn value_of(value: &[char]) -> (r: Vec<char>)
    ensures
        r@ == field_value(value@),
{
    let t = trim_chars(value);
    let ends: Vec<char> = vec!['。', '；', ';'];
    assert(ends@ =~= value_ends());
    let pieces = split_any(t.as_slice(), ends.as_slice());
    proof {
        crate::paths::lemma_split_nonempty(t@, ends@);
    }
    trim_chars(pieces[0].as_slice())
}

fn line_field_of(line: &[char], labels: &[&str]) -> (r: Option<Vec<char>>)
    ensures
        match r {
            Some(v) => line_field(line@, labels@) == Some(v@),
            None => line_field(line@, labels@) is None,
        },
{
    let t = trim_chars(line);
    match split_label_of(t.as_slice()) {
        Some((label, value)) => {
            let l = trim_chars(label.as_slice());
            if !is_one_of(l.as_slice(), labels) {
                return None;
            }
            let v = value_of(value.as_slice());
            if v.len() == 0 {
                return None;
            }
            Some(take_chars(v.as_slice(), 120))
        },
        None => None,
    }
}

/// The first value that the text gives for one of the labels (see
/// `spec_explicit_field`).
pub fn explicit_field(prompt: &str, labels: &[&str]) -> (r: Option<String>)
    ensures
        crate::projects::opt_view(r) == spec_explicit_field(prompt@, labels@),
{
    let p = chars_of(prompt);
    let nl: Vec<char> = vec!['\n'];
    assert(nl@ =~= seq!['\n']);
    let lines = split_any(p.as_slice(), nl.as_slice());
    let ghost all = text_lines(prompt@);
    proof {
        assert(all.subrange(0, all.len() as int) =~= all);
    }
    let mut i: usize = 0;
    while i < lines.len()
        invariant
            0 <= i <= lines@.len(),
            all == text_lines(prompt@),
            lines@.len() == all.len(),
            forall|k: int| 0 <= k < lines@.len() ==> #[trigger] lines@[k]@ == all[k],
            first_line_field(all, labels@) == first_line_field(
                all.subrange(i as int, all.len() as int),
                labels@,
            ),
        decreases lines.len() - i,
    {
        let ghost rest = all.subrange(i as int, all.len() as int);
        proof {
            assert(rest[0] == all[i as int]);
            assert(rest.drop_first() =~= all.subrange(i + 1, all.len() as int));
        }
        match line_field_of(lines[i].as_slice(), labels) {
            Some(v) => {
                return Some(string_of(v.as_slice()));
            },
            None => {},
        }
        i += 1;
    }
    None
}

// ----------------------------------------------------------------------------
// The project name
// ----------------------------------------------------------------------------

pub const NAME_LABELS: [&'static str; 3] = ["项目名", "项目名称", "名称"];

/// The name that one line gives, if it gives one: the value is checked for
/// blankness before it is cut at its first `。`, `；` or `;`, so the name may
/// come out empty.
pub open spec fn line_name(line: Seq<char>) -> Option<Seq<char>> {
    match split_label(trim(line)) {
        Some((label, value)) => if one_of(trim(label), NAME_LABELS@) && trim(value).len() > 0 {
            Some(take(field_value(value), 80))
        } else {
            None
        },
        None => None,
    }
}

pub open spec fn first_line_name(lines: Seq<Seq<char>>) -> Option<Seq<char>>
    decreases lines.len(),
{
    if lines.len() == 0 {
        None
    } else if line_name(lines[0]) is Some {
        line_name(lines[0])
    } else {
        first_line_name(lines.drop_first())
    }
}

/// The project name that the text states, else `待识别项目`.
pub open spec fn spec_project_name_hint(prompt: Seq<char>) -> Seq<char> {
    match first_line_name(text_lines(prompt)) {
        Some(n) => n,
        None => "待识别项目"@,
    }
}

fn line_name_of(line: &[char]) -> (r: Option<Vec<char>>)
    ensures
        match r {
            Some(v) => line_name(line@) == Some(v@),
            None => line_name(line@) is None,
        },
{
    let t = trim_chars(line);
    match split_label_of(t.as_slice()) {
        Some((label, value)) => {
            let l = trim_chars(label.as_slice());
            if !is_one_of(l.as_slice(), &NAME_LABELS) {
                return None;
            }
            let tv = trim_chars(value.as_slice());
            if tv.len() == 0 {
                return None;
            }
            let v = value_of(value.as_slice());
            Some(take_chars(v.as_slice(), 80))
        },
        None => None,
    }
}

/// The project name that the text states, else `待识别项目`.
pub fn project_name_hint(prompt: &str) -> (r: String)
    ensures
        r@ == spec_project_name_hint(prompt@),
{
    let p = chars_of(prompt);
    let nl: Vec<char> = vec!['\n'];
    assert(nl@ =~= seq!['\n']);
    let lines = split_any(p.as_slice(), nl.as_slice());
    let ghost all = text_lines(prompt@);
    proof {
        assert(all.subrange(0, all.len() as int) =~= all);
    }
    let mut i: usize = 0;
    while i < lines.len()
        invariant
            0 <= i <= lines@.len(),
            all == text_lines(prompt@),
            lines@.len() == all.len(),
            forall|k: int| 0 <= k < lines@.len() ==> #[trigger] lines@[k]@ == all[k],
            first_line_name(all) == first_line_name(all.subrange(i as int, all.len() as int)),
        decreases lines.len() - i,
    {
        let ghost rest = all.subrange(i as int, all.len() as int);
        proof {
            assert(rest[0] == all[i as int]);
            assert(rest.drop_first() =~= all.subrange(i + 1, all.len() as int));
        }
        match line_name_of(lines[i].as_slice()) {
            Some(v) => {
                return string_of(v.as_slice());
            },
            None => {},
        }
        i += 1;
    }
    String::from_str("待识别项目")
}

// ----------------------------------------------------------------------------
// Formal tags
// ----------------------------------------------------------------------------

/// The formal tags of the catalogue that a member may name in the text.
pub const FORMAL_TAGS: [&'static str; 32] = [
    "国创赛（互联网+）",
    "计算机设计大赛",
    "智能应用技术大赛",
    "大数据",
    "人工智能应用",
    "LLM/Agent",
    "计算机视觉",
    "NLP",
    "物联网",
    "嵌入式",
    "机器人",
    "Web",
    "移动端",
    "3D/VR",
    "软硬结合",
    "AI核心",
    "AI增强",
    "非AI",
    "开源项目",
    "校园服务",
    "教育",
    "农业",
    "医疗",
    "文旅",
    "工业",
    "科研辅助",
    "比赛项目",
    "实验室建设",
    "课程项目",
    "日常工具",
    "个人探索",
    "对外服务",
];

pub const TAG_LABELS: [&'static str; 2] = ["标签", "项目标签"];

/// The characters that separate tags.
pub open spec fn tag_separators() -> Seq<char> {
    seq![',', '，', '、', '/', '|']
}

/// A formal tag, compared without regard to ASCII case.
pub open spec fn is_formal_tag(t: Seq<char>) -> bool {
    exists|k: int| 0 <= k < FORMAL_TAGS@.len() && ascii_lowercase(#[trigger] FORMAL_TAGS@[k]@) == ascii_lowercase(t)
}

/// The trimmed pieces that are formal tags, in order.
pub open spec fn formal_pieces(pieces: Seq<Seq<char>>) -> Seq<Seq<char>>
    decreases pieces.len(),
{
    if pieces.len() == 0 {
        Seq::empty()
    } else {
        let kept = formal_pieces(pieces.drop_last());
        let t = trim(pieces.last());
        if is_formal_tag(t) {
            kept.push(t)
        } else {
            kept
        }
    }
}

/// The formal tags that the text names under `标签` or `项目标签`, as
/// written, at most three.
pub open spec fn spec_explicit_tags(prompt: Seq<char>) -> Seq<Seq<char>> {
    match spec_explicit_field(prompt, TAG_LABELS@) {
        Some(v) => take_items(formal_pieces(split_seq(v, tag_separators())), 3),
        None => Seq::empty(),
    }
}

proof fn lemma_formal_pieces(pieces: Seq<Seq<char>>)
    ensures
        forall|k: int| 0 <= k < formal_pieces(pieces).len() ==> is_formal_tag(#[trigger] formal_pieces(pieces)[k]),
    decreases pieces.len(),
{
    if pieces.len() > 0 {
        lemma_formal_pieces(pieces.drop_last());
        let kept = formal_pieces(pieces.drop_last());
        let t = trim(pieces.last());
        if is_formal_tag(t) {
            assert forall|k: int| 0 <= k < kept.push(t).len() implies is_formal_tag(#[trigger] kept.push(t)[k]) by {
                if k < kept.len() {
                    assert(kept.push(t)[k] == kept[k]);
                }
            }
        }
    }
}

/// The tags that a text names explicitly are at most three, and each is one
/// of the formal tags.
pub proof fn law_explicit_tags_are_formal(prompt: Seq<char>)
    ensures
        spec_explicit_tags(prompt).len() <= 3,
        forall|k: int| 0 <= k < spec_explicit_tags(prompt).len() ==> is_formal_tag(#[trigger] spec_explicit_tags(prompt)[k]),
{
    match spec_explicit_field(prompt, TAG_LABELS@) {
        Some(v) => {
            let f = formal_pieces(split_seq(v, tag_separators()));
            lemma_formal_pieces(split_seq(v, tag_separators()));
            assert forall|k: int| 0 <= k < spec_explicit_tags(prompt).len() implies is_formal_tag(#[trigger] spec_explicit_tags(prompt)[k]) by {
                assert(spec_explicit_tags(prompt)[k] == f[k]);
            }
        },
        None => {},
    }
}

fn formal_tag(t: &[char]) -> (r: bool)
    ensures
        r == is_formal_tag(t@),
{
    let lt = to_ascii_lowercase(t);
    let mut k: usize = 0;
    while k < FORMAL_TAGS.len()
        invariant
            0 <= k <= FORMAL_TAGS@.len(),
            lt@ == ascii_lowercase(t@),
            forall|j: int| 0 <= j < k ==> ascii_lowercase(#[trigger] FORMAL_TAGS@[j]@) != ascii_lowercase(t@),
        decreases FORMAL_TAGS.len() - k,
    {
        let f = chars_of(FORMAL_TAGS[k]);
        let lf = to_ascii_lowercase(f.as_slice());
        if chars_eq(lf.as_slice(), lt.as_slice()) {
            return true;
        }
        k += 1;
    }
    false
}

/// The formal tags that the text names (see `spec_explicit_tags`).
pub fn explicit_tags(prompt: &str) -> (r: Vec<String>)
    ensures
        crate::projects::strings_view(r@) == spec_explicit_tags(prompt@),
{
    let value = match explicit_field(prompt, &TAG_LABELS) {
        Some(v) => v,
        None => {
            return Vec::new();
        },
    };
    let v = chars_of(value.as_str());
    let seps: Vec<char> = vec![',', '，', '、', '/', '|'];
    assert(seps@ =~= tag_separators());
    let pieces = split_any(v.as_slice(), seps.as_slice());
    let ghost input = split_seq(v@, seps@);
    let mut kept: Vec<String> = Vec::new();
    let mut i: usize = 0;
    proof {
        assert(input.subrange(0, 0) =~= Seq::<Seq<char>>::empty());
    }
    while i < pieces.len()
        invariant
            0 <= i <= pieces@.len(),
            input == split_seq(v@, seps@),
            pieces@.len() == input.len(),
            forall|k: int| 0 <= k < pieces@.len() ==> #[trigger] pieces@[k]@ == input[k],
            crate::projects::strings_view(kept@) == formal_pieces(input.subrange(0, i as int)),
        decreases pieces.len() - i,
    {
        proof {
            let next = input.subrange(0, i + 1);
            assert(next.drop_last() =~= input.subrange(0, i as int));
            assert(next.last() == pieces@[i as int]@);
        }
        let t = trim_chars(pieces[i].as_slice());
        if formal_tag(t.as_slice()) {
            let ghost before = kept@;
            kept.push(string_of(t.as_slice()));
            proof {
                assert(crate::projects::strings_view(kept@) =~= crate::projects::strings_view(before).push(t@));
            }
        }
        i += 1;
    }
    proof {
        assert(input.subrange(0, input.len() as int) =~= input);
    }
    if kept.len() > 3 {
        let ghost all = crate::projects::strings_view(kept@);
        kept.truncate(3);
        proof {
            assert(crate::projects::strings_view(kept@) =~= all.subrange(0, 3));
        }
    }
    kept
}

} // verus!
