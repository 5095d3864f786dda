//! The text of Office Open XML parts (Word documents and PowerPoint slides):
//! the runs of `t` elements, with spaces between runs and a line break after
//! each paragraph.

use quick_xml::events::Event;
use quick_xml::Reader;
use vstd::prelude::*;

use crate::imports::draft::insert_sorted;
use crate::imports::extractors::{append_limited, numeric_suffix, spec_numeric_suffix, MAX_TEXT_CHARS};
use crate::imports::names::strictly_sorted;
use crate::paths::{split_any, split_seq};
use crate::projects::strings_view;
use crate::text::{
    chars_of, ends_with, ends_with_lit, push_decimal, push_str, starts_with, starts_with_chars,
    starts_with_lit, string_of, is_blank, take, trim, trim_chars, utf8_len, utf8_len_of,
};

verus! {

/// What `quick_xml::Reader` reads from an XML text with `trim_text(true)`:
/// the events in order, up to the end or the first error, and whether it
/// stopped at an error. Each event is a code with a text: 0 and the local
/// name for a start tag, 1 and the content for a text, 2 and the local name
/// for an end tag, 3 for anything else.
pub uninterp spec fn xml_events(xml: Seq<u8>) -> (Seq<(u8, Seq<char>)>, bool);

/// Reads every event of an XML text with `quick_xml::Reader` (text trimmed)
/// until the end or the first error. Only named.
#[verifier::external_body]
fn read_ooxml_events(xml: &[u8]) -> (r: (Vec<(u8, String)>, bool))
    ensures
        (r.0@.map_values(|e: (u8, String)| (e.0, e.1@)), r.1) == xml_events(xml@),
{
    let mut reader = Reader::from_reader(xml);
    reader.config_mut().trim_text(true);
    let (mut buffer, mut events) = (Vec::new(), Vec::new());
    loop {
        events.push(match reader.read_event_into(&mut buffer) {
            Ok(Event::Start(e)) => (0, e.local_name().into_inner().to_owned()),
            Ok(Event::Text(e)) => (1, e.into_inner().into_owned()),
            Ok(Event::End(e)) => (2, e.local_name().into_inner().to_owned()),
            Ok(Event::Eof) => return (events, false),
            Ok(_) => (3, String::new()),
            Err(_) => return (events, true),
        });
        buffer.clear();
    }
}

/// One event: a start tag says whether text runs (`t`) begin; the text of a
/// run, trimmed and not empty, is added after a space where the text so far
/// does not end in a space or line break, within the character limit; the end
/// of a run ends it, the end of a paragraph (`p`) adds a line break.
pub open spec fn xml_step(in_text: bool, out: Seq<char>, e: (u8, Seq<char>)) -> (bool, Seq<char>) {
    let (kind, name) = e;
    let text = e.1;
    if kind == 0 {
        (name == seq!['t'], out)
    } else if kind == 1 {
        if in_text && trim(text).len() > 0 {
            let spaced = if out.len() > 0 && !(out.last() == ' ' || out.last() == '\n') {
                out.push(' ')
            } else {
                out
            };
            (
                in_text,
                spaced + take(
                    trim(text),
                    if spaced.len() < MAX_TEXT_CHARS {
                        MAX_TEXT_CHARS - spaced.len()
                    } else {
                        0
                    },
                ),
            )
        } else {
            (in_text, out)
        }
    } else if kind == 2 {
        if name == seq!['t'] {
            (false, out)
        } else if name == seq!['p'] && !(out.len() > 0 && out.last() == '\n') {
            (in_text, out.push('\n'))
        } else {
            (in_text, out)
        }
    } else {
        (in_text, out)
    }
}

/// The events from a state on: `None` where the reader failed before the
/// text reached the limit (in UTF-8 bytes).
pub open spec fn xml_run(
    events: Seq<(u8, Seq<char>)>,
    failed: bool,
    in_text: bool,
    out: Seq<char>,
) -> Option<Seq<char>>
    decreases events.len(),
{
    if events.len() == 0 {
        if failed {
            None
        } else {
            Some(out)
        }
    } else {
        let (t, o) = xml_step(in_text, out, events[0]);
        if utf8_len(o) >= MAX_TEXT_CHARS {
            Some(o)
        } else {
            xml_run(events.drop_first(), failed, t, o)
        }
    }
}

/// The text of an XML part, trimmed; `None` where the XML cannot be read.
pub open spec fn spec_extract_xml_text(xml: Seq<u8>) -> Option<Seq<char>> {
    match xml_run(xml_events(xml).0, xml_events(xml).1, false, Seq::empty()) {
        Some(o) => Some(trim(o)),
        None => None,
    }
}

/// Whether a name is exactly the one letter `c`.
fn is_letter(name: &str, c: char) -> (r: bool)
    ensures
        r == (name@ == seq![c]),
{
    let v = chars_of(name);
    if v.len() == 1 && v[0] == c {
        assert(v@ =~= seq![c]);
        true
    } else {
        false
    }
}

pub fn extract_xml_text(xml: &[u8]) -> (r: Option<String>)
    ensures
        crate::projects::opt_view(r) == spec_extract_xml_text(xml@),
{
    let (events, failed) = read_ooxml_events(xml);
    let ghost all = events@.map_values(|e: (u8, String)| (e.0, e.1@));
    let mut in_text = false;
    let mut out: Vec<char> = Vec::new();
    let mut i: usize = 0;
    let mut stopped = false;
    proof {
        assert(all.subrange(0, all.len() as int) =~= all);
    }
    while i < events.len() && !stopped
        invariant
            0 <= i <= events@.len(),
            all.len() == events@.len(),
            all == events@.map_values(|e: (u8, String)| (e.0, e.1@)),
            (all, failed) == xml_events(xml@),
            !stopped ==> xml_run(all, failed, false, Seq::empty()) == xml_run(
                all.subrange(i as int, all.len() as int),
                failed,
                in_text,
                out@,
            ),
            stopped ==> xml_run(all, failed, false, Seq::empty()) == Some(out@),
        decreases events.len() - i,
    {
        let ghost rest = all.subrange(i as int, all.len() as int);
        let ghost before = (in_text, out@);
        proof {
            assert(rest[0] == all[i as int]);
            assert(rest.drop_first() =~= all.subrange(i + 1, all.len() as int));
        }
        let e = &events[i];
        if e.0 == 0 {
            in_text = is_letter(e.1.as_str(), 't');
        } else if e.0 == 1 {
            let raw = chars_of(e.1.as_str());
            let value = trim_chars(raw.as_slice());
            if in_text && value.len() > 0 {
                if out.len() > 0 && !(out[out.len() - 1] == ' ' || out[out.len() - 1] == '\n') {
                    out.push(' ');
                }
                append_limited(&mut out, value.as_slice(), MAX_TEXT_CHARS);
            }
        } else if e.0 == 2 {
            let is_t = is_letter(e.1.as_str(), 't');
            let is_p = is_letter(e.1.as_str(), 'p');
            if is_t {
                in_text = false;
            } else if is_p && !(out.len() > 0 && out[out.len() - 1] == '\n') {
                out.push('\n');
            }
        }
        proof {
            assert(xml_step(before.0, before.1, all[i as int]) == (in_text, out@));
        }
        i += 1;
        if utf8_len_of(out.as_slice()) >= MAX_TEXT_CHARS {
            stopped = true;
        }
    }
    if !stopped && failed {
        return None;
    }
    let t = trim_chars(out.as_slice());
    Some(string_of(t.as_slice()))
}

// ----------------------------------------------------------------------------
// Assembling the text of a file
// ----------------------------------------------------------------------------

/// Whether the text of a file has reached the limit (in UTF-8 bytes).
pub fn text_full(text: &Vec<char>) -> (r: bool)
    ensures
        r == (utf8_len(text@) >= MAX_TEXT_CHARS),
{
    utf8_len_of(text.as_slice()) >= MAX_TEXT_CHARS
}

/// Adds the text of a slide under a heading with its number (from 1), where
/// the slide has text; within the character limit.
pub fn append_slide_text(text: &mut Vec<char>, index: usize, slide_text: &str)
    requires
        index < usize::MAX,
    ensures
        trim(slide_text@).len() == 0 ==> final(text)@ == old(text)@,
        trim(slide_text@).len() > 0 ==> final(text)@ == old(text)@ + take(
            "\n[第 "@ + crate::text::decimal((index + 1) as nat) + " 页]\n"@ + slide_text@,
            if old(text)@.len() < MAX_TEXT_CHARS {
                MAX_TEXT_CHARS - old(text)@.len()
            } else {
                0
            },
        ),
{
    let s = chars_of(slide_text);
    let t = trim_chars(s.as_slice());
    if t.len() == 0 {
        return;
    }
    let mut part = crate::text::lit("\n[第 ");
    push_decimal(&mut part, (index + 1) as u64);
    push_str(&mut part, " 页]\n");
    crate::text::push_all(&mut part, s.as_slice());
    append_limited(text, part.as_slice(), MAX_TEXT_CHARS);
}

/// Adds the speaker notes of a slide under a heading, where they have text;
/// within the character limit.
pub fn append_note_text(text: &mut Vec<char>, note_text: &str)
    ensures
        trim(note_text@).len() == 0 ==> final(text)@ == old(text)@,
        trim(note_text@).len() > 0 ==> final(text)@ == old(text)@ + take(
            "\n[演讲者备注]\n"@ + note_text@,
            if old(text)@.len() < MAX_TEXT_CHARS {
                MAX_TEXT_CHARS - old(text)@.len()
            } else {
                0
            },
        ),
{
    let s = chars_of(note_text);
    let t = trim_chars(s.as_slice());
    if t.len() == 0 {
        return;
    }
    let mut part = crate::text::lit("\n[演讲者备注]\n");
    crate::text::push_all(&mut part, s.as_slice());
    append_limited(text, part.as_slice(), MAX_TEXT_CHARS);
}

/// The number of lines of a text that are not blank.
pub open spec fn spec_paragraph_count(text: Seq<char>) -> nat {
    split_seq(text, seq!['\n']).filter(|l: Seq<char>| trim(l).len() > 0).len()
}

/// Counts the lines of a text that are not blank.
pub fn paragraph_count(text: &str) -> (r: usize)
    ensures
        r == spec_paragraph_count(text@),
{
    let chars = chars_of(text);
    let seps = vec!['\n'];
    let lines = split_any(chars.as_slice(), seps.as_slice());
    let ghost pieces = split_seq(text@, seq!['\n']);
    let ghost p = |l: Seq<char>| trim(l).len() > 0;
    proof {
        assert(seps@ =~= seq!['\n']);
        assert(pieces.take(0) =~= Seq::<Seq<char>>::empty());
        reveal(Seq::filter);
    }
    let mut count: usize = 0;
    let mut i: usize = 0;
    while i < lines.len()
        invariant
            0 <= i <= lines@.len(),
            lines@.len() == pieces.len(),
            forall|k: int| 0 <= k < lines@.len() ==> #[trigger] lines@[k]@ == pieces[k],
            p == (|l: Seq<char>| trim(l).len() > 0),
            count == pieces.take(i as int).filter(p).len(),
            count <= i,
        decreases lines.len() - i,
    {
        proof {
            assert(pieces.take(i + 1) =~= pieces.take(i as int).push(pieces[i as int]));
            pieces.take(i as int).lemma_filter_push(pieces[i as int], p);
        }
        if !is_blank(lines[i].as_slice()) {
            count += 1;
        }
        i += 1;
    }
    proof {
        assert(pieces.take(lines@.len() as int) =~= pieces);
    }
    count
}

// ----------------------------------------------------------------------------
// The parts of a document that carry its text
// ----------------------------------------------------------------------------

/// Whether a part of a Word document is one of its headers or footers.
pub open spec fn is_docx_extra_part(name: Seq<char>) -> bool {
    (starts_with(name, "word/header"@) || starts_with(name, "word/footer"@)) && ends_with(
        name,
        ".xml"@,
    )
}

/// The parts of a Word document whose text is read: the main part and every
/// header and footer that the archive holds.
pub open spec fn docx_part_set(names: Seq<Seq<char>>) -> Set<Seq<char>> {
    names.to_set().filter(|n: Seq<char>| is_docx_extra_part(n)).insert("word/document.xml"@)
}

/// The parts of a Word document to read, in ascending order, each once.
pub fn docx_parts(names: &Vec<String>) -> (r: Vec<String>)
    ensures
        strictly_sorted(strings_view(r@)),
        strings_view(r@).to_set() == docx_part_set(strings_view(names@)),
{
    let ghost all = strings_view(names@);
    let mut parts: Vec<String> = Vec::new();
    proof {
        assert(strings_view(parts@).to_set() =~= Set::empty());
    }
    insert_sorted(&mut parts, "word/document.xml".to_string());
    let mut i: usize = 0;
    while i < names.len()
        invariant
            0 <= i <= names@.len(),
            all == strings_view(names@),
            strictly_sorted(strings_view(parts@)),
            strings_view(parts@).to_set() == all.take(i as int).to_set().filter(
                |n: Seq<char>| is_docx_extra_part(n),
            ).insert("word/document.xml"@),
        decreases names.len() - i,
    {
        let ghost before = strings_view(parts@).to_set();
        proof {
            assert(all.take(i + 1) =~= all.take(i as int).push(all[i as int]));
            all.take(i as int).lemma_push_to_set_commute(all[i as int]);
            assert(all[i as int] == names@[i as int]@);
        }
        let name = chars_of(names[i].as_str());
        let wanted = (starts_with_lit(name.as_slice(), "word/header") || starts_with_lit(
            name.as_slice(),
            "word/footer",
        )) && ends_with_lit(name.as_slice(), ".xml");
        if wanted {
            insert_sorted(&mut parts, names[i].clone());
            proof {
                assert(strings_view(parts@).to_set() =~= all.take(i + 1).to_set().filter(
                    |n: Seq<char>| is_docx_extra_part(n),
                ).insert("word/document.xml"@));
            }
        } else {
            proof {
                assert(strings_view(parts@).to_set() =~= all.take(i + 1).to_set().filter(
                    |n: Seq<char>| is_docx_extra_part(n),
                ).insert("word/document.xml"@));
            }
        }
        i += 1;
    }
    proof {
        assert(all.take(names@.len() as int) =~= all);
    }
    parts
}

/// Whether a part of an archive is one of a numbered series: its name starts
/// with the series' prefix and ends in `.xml`.
pub open spec fn in_series(name: Seq<char>, prefix: Seq<char>) -> bool {
    starts_with(name, prefix) && ends_with(name, ".xml"@)
}

/// The names of a sequence whose numeric suffix is `k`, in their order.
pub open spec fn with_suffix(names: Seq<Seq<char>>, k: usize) -> Seq<Seq<char>> {
    names.filter(|n: Seq<char>| spec_numeric_suffix(n) == k)
}

/// Names ordered by their numeric suffix.
pub open spec fn by_suffix(names: Seq<Seq<char>>) -> bool {
    forall|i: int, j: int|
        0 <= i < j < names.len() ==> spec_numeric_suffix(#[trigger] names[i])
            <= spec_numeric_suffix(#[trigger] names[j])
}

/// A sequence whose names all have suffixes above `k` holds none with suffix `k`.
proof fn lemma_none_with_suffix(s: Seq<Seq<char>>, k: usize)
    requires
        forall|j: int| 0 <= j < s.len() ==> spec_numeric_suffix(#[trigger] s[j]) > k,
    ensures
        with_suffix(s, k) =~= Seq::<Seq<char>>::empty(),
{
    let f = with_suffix(s, k);
    if f.len() > 0 {
        s.lemma_filter_pred(|n: Seq<char>| spec_numeric_suffix(n) == k, 0);
        s.lemma_filter_contains_rev(|n: Seq<char>| spec_numeric_suffix(n) == k, f[0]);
        let j = choose|j: int| 0 <= j < s.len() && s[j] == f[0];
        assert(spec_numeric_suffix(s[j]) > k);
    }
}

/// Placing a name after every name whose suffix is not above its own keeps,
/// for each suffix, the names with that suffix in their order, the new one
/// last.
proof fn lemma_insert_by_suffix(out: Seq<Seq<char>>, pos: int, x: Seq<char>, k: usize)
    requires
        0 <= pos <= out.len(),
        forall|j: int| 0 <= j < pos ==> spec_numeric_suffix(#[trigger] out[j]) <= spec_numeric_suffix(x),
        forall|j: int| pos <= j < out.len() ==> spec_numeric_suffix(#[trigger] out[j]) > spec_numeric_suffix(x),
    ensures
        with_suffix(out.insert(pos, x), k) == if spec_numeric_suffix(x) == k {
            with_suffix(out, k).push(x)
        } else {
            with_suffix(out, k)
        },
{
    let p = |n: Seq<char>| spec_numeric_suffix(n) == k;
    let a = out.take(pos);
    let b = out.skip(pos);
    assert(out =~= a + b);
    assert(out.insert(pos, x) =~= (a + seq![x]) + b);
    Seq::filter_distributes_over_add(a, b, p);
    Seq::filter_distributes_over_add(a + seq![x], b, p);
    a.lemma_filter_push(x, p);
    assert(a + seq![x] =~= a.push(x));
    if spec_numeric_suffix(x) == k {
        assert forall|j: int| 0 <= j < b.len() implies spec_numeric_suffix(#[trigger] b[j]) > k by {
            assert(b[j] == out[pos + j]);
        }
        lemma_none_with_suffix(b, k);
        assert(with_suffix(out, k) =~= with_suffix(a, k));
        assert(with_suffix(out.insert(pos, x), k) =~= with_suffix(a, k).push(x));
    } else {
        assert(with_suffix(out.insert(pos, x), k) =~= with_suffix(out, k));
    }
}

/// The parts of a numbered series (slides, or their notes), in the order of
/// their numeric suffixes; parts with the same suffix keep the archive's order.
pub fn series_parts(names: &Vec<String>, prefix: &str) -> (r: Vec<String>)
    ensures
        by_suffix(strings_view(r@)),
        forall|k: usize|
            #[trigger] with_suffix(strings_view(r@), k) == with_suffix(
                strings_view(names@).filter(|n: Seq<char>| in_series(n, prefix@)),
                k,
            ),
{
    let ghost all = strings_view(names@);
    let ghost p = |n: Seq<char>| in_series(n, prefix@);
    let mut parts: Vec<String> = Vec::new();
    let mut i: usize = 0;
    proof {
        assert(all.take(0) =~= Seq::<Seq<char>>::empty());
        assert forall|k: usize| #[trigger] with_suffix(strings_view(parts@), k) == with_suffix(all.take(0).filter(p), k) by {
            reveal(Seq::filter);
            assert(strings_view(parts@) =~= Seq::<Seq<char>>::empty());
        }
    }
    while i < names.len()
        invariant
            0 <= i <= names@.len(),
            all == strings_view(names@),
            p == (|n: Seq<char>| in_series(n, prefix@)),
            by_suffix(strings_view(parts@)),
            forall|k: usize|
                #[trigger] with_suffix(strings_view(parts@), k) == with_suffix(
                    all.take(i as int).filter(p),
                    k,
                ),
        decreases names.len() - i,
    {
        proof {
            assert(all.take(i + 1) =~= all.take(i as int).push(all[i as int]));
            all.take(i as int).lemma_filter_push(all[i as int], p);
            assert(all[i as int] == names@[i as int]@);
        }
        let name = chars_of(names[i].as_str());
        let prefix_chars = chars_of(prefix);
        if starts_with_chars(name.as_slice(), prefix_chars.as_slice()) && ends_with_lit(
            name.as_slice(),
            ".xml",
        ) {
            let key = numeric_suffix(names[i].as_str());
            let mut pos: usize = 0;
            while pos < parts.len() && numeric_suffix(parts[pos].as_str()) <= key
                invariant
                    0 <= pos <= parts@.len(),
                    key == spec_numeric_suffix(names@[i as int]@),
                    forall|j: int|
                        0 <= j < pos ==> spec_numeric_suffix(#[trigger] strings_view(parts@)[j])
                            <= key,
                decreases parts.len() - pos,
            {
                pos += 1;
            }
            let ghost old_parts = strings_view(parts@);
            proof {
                assert forall|j: int| pos <= j < old_parts.len() implies spec_numeric_suffix(
                    #[trigger] old_parts[j],
                ) > key by {
                    if j > pos {
                        assert(spec_numeric_suffix(old_parts[pos as int]) <= spec_numeric_suffix(old_parts[j]));
                    }
                }
            }
            parts.insert(pos, names[i].clone());
            proof {
                assert(strings_view(parts@) =~= old_parts.insert(pos as int, all[i as int]));
                assert forall|k: usize| #[trigger] with_suffix(strings_view(parts@), k) == with_suffix(
                    all.take(i + 1).filter(p),
                    k,
                ) by {
                    lemma_insert_by_suffix(old_parts, pos as int, all[i as int], k);
                    all.take(i as int).filter(p).lemma_filter_push(
                        all[i as int],
                        |n: Seq<char>| spec_numeric_suffix(n) == k,
                    );
                }
                let np = strings_view(parts@);
                assert forall|a: int, b: int| 0 <= a < b < np.len() implies spec_numeric_suffix(
                    #[trigger] np[a],
                ) <= spec_numeric_suffix(#[trigger] np[b]) by {
                    if a < pos && b > pos {
                        assert(np[a] == old_parts[a]);
                        assert(np[b] == old_parts[b - 1]);
                    } else if a < pos && b == pos {
                        assert(np[a] == old_parts[a]);
                    } else if a == pos {
                        assert(np[b] == old_parts[b - 1]);
                    } else if b < pos {
                        assert(np[a] == old_parts[a]);
                        assert(np[b] == old_parts[b]);
                    } else {
                        assert(np[a] == old_parts[a - 1]);
                        assert(np[b] == old_parts[b - 1]);
                    }
                }
            }
        }
        i += 1;
    }
    proof {
        assert(all.take(names@.len() as int) =~= all);
    }
    parts
}

} // verus!
