//! Names in an import: the stored name of an uploaded file, the project name
//! and path that a draft proposes, and the text context of a job.

use vstd::prelude::*;

use crate::paths::{
    dot, dot_dot, extension, file_name, file_stem, path_extension, path_file_name, path_file_stem,
    path_pieces, split_any,
};
use crate::projects::opt_view;
use crate::text::{
    ascii_lower, ascii_lowercase, char_len_utf8, char_utf8_len, chars_of, contains, eq_lit,
    has_char, is_ascii_alnum, is_white_space, lit, push_all, push_str, string_of, take,
    take_chars, to_ascii_lower_char, to_ascii_lowercase, trim, trim_chars, white_space,
};

verus! {

// ----------------------------------------------------------------------------
// Project paths
// ----------------------------------------------------------------------------

/// Lower-cases ASCII letters and keeps ASCII letters and digits; every run of
/// other characters after the first kept one becomes a single `-`. The flag
/// says whether the text ends in such a `-`.
pub open spec fn slug_state(s: Seq<char>) -> (Seq<char>, bool)
    decreases s.len(),
{
    if s.len() == 0 {
        (Seq::empty(), false)
    } else {
        let (acc, hyphen) = slug_state(s.drop_last());
        let c = ascii_lower(s.last());
        if is_ascii_alnum(c) {
            (acc.push(c), false)
        } else if acc.len() > 0 && !hyphen {
            (acc.push('-'), true)
        } else {
            (acc, hyphen)
        }
    }
}

/// `s` without its trailing `-`.
pub open spec fn strip_hyphen_end(s: Seq<char>) -> Seq<char>
    decreases s.len(),
{
    if s.len() > 0 && s.last() == '-' {
        strip_hyphen_end(s.drop_last())
    } else {
        s
    }
}

/// `s` without its leading `-`.
pub open spec fn strip_hyphen_start(s: Seq<char>) -> Seq<char>
    decreases s.len(),
{
    if s.len() > 0 && s[0] == '-' {
        strip_hyphen_start(s.drop_first())
    } else {
        s
    }
}

/// `str::trim_matches('-')`.
pub open spec fn strip_hyphens(s: Seq<char>) -> Seq<char> {
    strip_hyphen_start(strip_hyphen_end(s))
}

/// The first `n` bytes of `s` as characters, where `n` bytes end on a
/// character boundary (see `on_boundary`).
pub open spec fn byte_prefix(s: Seq<char>, n: nat) -> Seq<char>
    decreases s.len(),
{
    if s.len() == 0 || n == 0 {
        Seq::empty()
    } else if char_utf8_len(s[0]) <= n {
        seq![s[0]] + byte_prefix(s.drop_first(), (n - char_utf8_len(s[0])) as nat)
    } else {
        Seq::empty()
    }
}

/// The first `n` bytes of `s` (or all of them, where there are fewer) end on
/// a character boundary.
pub open spec fn on_boundary(s: Seq<char>, n: nat) -> bool
    decreases s.len(),
{
    if s.len() == 0 || n == 0 {
        true
    } else {
        char_utf8_len(s[0]) <= n && on_boundary(s.drop_first(), (n - char_utf8_len(s[0])) as nat)
    }
}

/// The path a draft proposes for a project name: the kept letters and digits
/// with single hyphens between runs, at most 72 characters; where the name
/// has no ASCII letter or digit, `import-` and the first eight bytes of the
/// job id.
pub open spec fn spec_slugify(value: Seq<char>, job_id: Seq<char>) -> Seq<char> {
    let core = strip_hyphens(slug_state(value).0);
    if core.len() == 0 {
        "import-"@ + byte_prefix(job_id, 8)
    } else {
        take(core, 72)
    }
}

fn strip_hyphen_chars(s: &[char]) -> (r: Vec<char>)
    ensures
        r@ == strip_hyphens(s@),
{
    let mut end: usize = s.len();
    proof {
        assert(s@.subrange(0, end as int) =~= s@);
    }
    while end > 0 && s[end - 1] == '-'
        invariant
            0 <= end <= s@.len(),
            strip_hyphen_end(s@) == strip_hyphen_end(s@.subrange(0, end as int)),
        decreases end,
    {
        proof {
            assert(s@.subrange(0, end as int).drop_last() =~= s@.subrange(0, end - 1));
        }
        end -= 1;
    }
    let ghost e = s@.subrange(0, end as int);
    proof {
        assert(strip_hyphen_end(e) == e);
        assert(e.subrange(0, e.len() as int) =~= e);
    }
    let mut start: usize = 0;
    while start < end && s[start] == '-'
        invariant
            0 <= start <= end,
            end <= s@.len(),
            e == s@.subrange(0, end as int),
            strip_hyphen_start(e) == strip_hyphen_start(s@.subrange(start as int, end as int)),
        decreases end - start,
    {
        proof {
            assert(s@.subrange(start as int, end as int).drop_first() =~= s@.subrange(
                start + 1,
                end as int,
            ));
        }
        start += 1;
    }
    crate::text::slice_chars(s, start, end)
}

/// The path a draft proposes for a project name (see `spec_slugify`).
pub fn slugify(value: &str, job_id: &str) -> (r: String)
    requires
        on_boundary(job_id@, 8),
    ensures
        r@ == spec_slugify(value@, job_id@),
{
    let v = chars_of(value);
    let mut slug: Vec<char> = Vec::new();
    let mut hyphen = false;
    let mut i: usize = 0;
    proof {
        assert(v@.subrange(0, 0) =~= Seq::<char>::empty());
    }
    while i < v.len()
        invariant
            0 <= i <= v@.len(),
            v@ == value@,
            (slug@, hyphen) == slug_state(v@.subrange(0, i as int)),
        decreases v.len() - i,
    {
        proof {
            let next = v@.subrange(0, i + 1);
            assert(next.drop_last() =~= v@.subrange(0, i as int));
            assert(next.last() == v@[i as int]);
        }
        let c = to_ascii_lower_char(v[i]);
        if ('a' <= c && c <= 'z') || ('0' <= c && c <= '9') || ('A' <= c && c <= 'Z') {
            slug.push(c);
            hyphen = false;
        } else if slug.len() > 0 && !hyphen {
            slug.push('-');
            hyphen = true;
        }
        i += 1;
    }
    proof {
        assert(v@.subrange(0, v@.len() as int) =~= v@);
    }
    let core = strip_hyphen_chars(slug.as_slice());
    if core.len() == 0 {
        let mut out = lit("import-");
        let j = chars_of(job_id);
        let mut used: usize = 0;
        let mut k: usize = 0;
        let ghost rest0 = j@;
        proof {
            assert(j@.subrange(0, 0) =~= Seq::<char>::empty());
            assert(j@.subrange(0, j@.len() as int) =~= j@);
        }
        while k < j.len() && used < 8
            invariant
                0 <= k <= j@.len(),
                0 <= used <= 8,
                j@ == job_id@,
                on_boundary(j@.subrange(k as int, j@.len() as int), (8 - used) as nat),
                byte_prefix(job_id@, 8) == j@.subrange(0, k as int) + byte_prefix(
                    j@.subrange(k as int, j@.len() as int),
                    (8 - used) as nat,
                ),
                out@ == "import-"@ + j@.subrange(0, k as int),
            decreases j.len() - k,
        {
            let ghost rest = j@.subrange(k as int, j@.len() as int);
            let w = char_len_utf8(j[k]);
            proof {
                assert(rest[0] == j@[k as int]);
                assert(rest.drop_first() =~= j@.subrange(k + 1, j@.len() as int));
                assert(j@.subrange(0, k + 1) =~= j@.subrange(0, k as int) + seq![j@[k as int]]);
            }
            out.push(j[k]);
            used = used + w;
            k += 1;
        }
        proof {
            let rest = j@.subrange(k as int, j@.len() as int);
            assert(byte_prefix(rest, (8 - used) as nat) =~= Seq::<char>::empty());
            assert(j@.subrange(0, k as int) + Seq::<char>::empty() =~= j@.subrange(0, k as int));
            reveal_strlit("import-");
        }
        string_of(out.as_slice())
    } else {
        let t = take_chars(core.as_slice(), 72);
        string_of(t.as_slice())
    }
}

/// A path made of lower-case ASCII letters, digits and single hyphens, not
/// starting with a hyphen, at most 72 characters.
pub open spec fn slug_shaped(s: Seq<char>) -> bool {
    &&& forall|i: int|
        0 <= i < s.len() ==> crate::text::is_ascii_lower(#[trigger] s[i])
            || crate::text::is_ascii_digit(s[i]) || s[i] == '-'
    &&& (s.len() > 0 ==> s[0] != '-')
    &&& forall|i: int| 0 <= i < s.len() - 1 ==> !(#[trigger] s[i] == '-' && s[i + 1] == '-')
    &&& s.len() <= 72
}

proof fn lemma_slug_state(s: Seq<char>)
    ensures
        ({
            let (acc, hyphen) = slug_state(s);
            &&& forall|i: int|
                0 <= i < acc.len() ==> crate::text::is_ascii_lower(#[trigger] acc[i])
                    || crate::text::is_ascii_digit(acc[i]) || acc[i] == '-'
            &&& (acc.len() > 0 ==> acc[0] != '-')
            &&& forall|i: int| 0 <= i < acc.len() - 1 ==> !(#[trigger] acc[i] == '-' && acc[i + 1] == '-')
            &&& hyphen <==> (acc.len() > 0 && acc.last() == '-')
        }),
    decreases s.len(),
{
    if s.len() > 0 {
        lemma_slug_state(s.drop_last());
        let (acc, hyphen) = slug_state(s.drop_last());
        let c = ascii_lower(s.last());
        let (next, h2) = slug_state(s);
        assert forall|i: int| 0 <= i < next.len() - 1 implies !(#[trigger] next[i] == '-' && next[i + 1] == '-') by {
            if i < acc.len() - 1 {
                assert(next[i] == acc[i] && next[i + 1] == acc[i + 1]);
            }
        }
    }
}

proof fn lemma_strip_end(s: Seq<char>)
    ensures
        strip_hyphen_end(s) == s.subrange(0, strip_hyphen_end(s).len() as int),
        strip_hyphen_end(s).len() <= s.len(),
    decreases s.len(),
{
    if s.len() > 0 && s.last() == '-' {
        lemma_strip_end(s.drop_last());
        let r = strip_hyphen_end(s.drop_last());
        assert(s.drop_last().subrange(0, r.len() as int) =~= s.subrange(0, r.len() as int));
    } else {
        assert(s.subrange(0, s.len() as int) =~= s);
    }
}

proof fn lemma_strip_start(s: Seq<char>)
    ensures
        strip_hyphen_start(s) == s.subrange(
            s.len() - strip_hyphen_start(s).len(),
            s.len() as int,
        ),
        strip_hyphen_start(s).len() <= s.len(),
        strip_hyphen_start(s).len() > 0 ==> strip_hyphen_start(s)[0] != '-',
    decreases s.len(),
{
    if s.len() > 0 && s[0] == '-' {
        lemma_strip_start(s.drop_first());
        let r = strip_hyphen_start(s.drop_first());
        assert(s.drop_first().subrange(s.len() - 1 - r.len(), s.len() - 1) =~= s.subrange(
            s.len() - r.len(),
            s.len() as int,
        ));
    } else {
        assert(s.subrange(0, s.len() as int) =~= s);
    }
}

/// A path made from a name with an ASCII letter or digit is lower-case
/// letters, digits and single hyphens, does not start with a hyphen and has
/// at most 72 characters.
pub proof fn law_slug_shape(value: Seq<char>, job_id: Seq<char>)
    requires
        strip_hyphens(slug_state(value).0).len() > 0,
    ensures
        slug_shaped(spec_slugify(value, job_id)),
        spec_slugify(value, job_id).len() > 0,
{
    let acc = slug_state(value).0;
    lemma_slug_state(value);
    lemma_strip_end(acc);
    let e = strip_hyphen_end(acc);
    lemma_strip_start(e);
    let core = strip_hyphen_start(e);
    let start = e.len() - core.len();
    let out = spec_slugify(value, job_id);
    assert(out == take(core, 72));
    assert forall|i: int| 0 <= i < out.len() implies crate::text::is_ascii_lower(#[trigger] out[i])
        || crate::text::is_ascii_digit(out[i]) || out[i] == '-' by {
        assert(out[i] == core[i]);
        assert(core[i] == e[start + i]);
        assert(e[start + i] == acc[start + i]);
    }
    assert forall|i: int| 0 <= i < out.len() - 1 implies !(#[trigger] out[i] == '-' && out[i + 1] == '-') by {
        assert(out[i] == acc[start + i]);
        assert(out[i + 1] == acc[start + i + 1]);
    }
}

// ----------------------------------------------------------------------------
// Project names
// ----------------------------------------------------------------------------

/// `_` and `-` read as spaces in a project name.
pub open spec fn spaced(c: char) -> char {
    if c == '_' || c == '-' {
        ' '
    } else {
        c
    }
}

/// The words of `s` (with `_` and `-` read as spaces) joined by single
/// spaces; the flag says whether a space is due before the next word.
pub open spec fn joined_words(s: Seq<char>) -> (Seq<char>, bool)
    decreases s.len(),
{
    if s.len() == 0 {
        (Seq::empty(), false)
    } else {
        let (out, pending) = joined_words(s.drop_last());
        let c = spaced(s.last());
        if is_white_space(c) {
            (out, out.len() > 0)
        } else if pending {
            (out.push(' ').push(c), false)
        } else {
            (out.push(c), false)
        }
    }
}

/// A project name from a file or folder name: words separated by single
/// spaces, `_` and `-` read as spaces; `待识别项目` where nothing is left.
pub open spec fn spec_clean_project_name(value: Seq<char>) -> Seq<char> {
    let cleaned = joined_words(value).0;
    if cleaned.len() == 0 {
        "待识别项目"@
    } else {
        cleaned
    }
}

pub fn clean_project_name(value: &str) -> (r: String)
    ensures
        r@ == spec_clean_project_name(value@),
{
    let v = chars_of(value);
    let mut out: Vec<char> = Vec::new();
    let mut pending = false;
    let mut i: usize = 0;
    proof {
        assert(v@.subrange(0, 0) =~= Seq::<char>::empty());
    }
    while i < v.len()
        invariant
            0 <= i <= v@.len(),
            v@ == value@,
            (out@, pending) == joined_words(v@.subrange(0, i as int)),
        decreases v.len() - i,
    {
        proof {
            let next = v@.subrange(0, i + 1);
            assert(next.drop_last() =~= v@.subrange(0, i as int));
            assert(next.last() == v@[i as int]);
        }
        let c = if v[i] == '_' || v[i] == '-' {
            ' '
        } else {
            v[i]
        };
        if white_space(c) {
            pending = out.len() > 0;
        } else {
            if pending {
                out.push(' ');
            }
            out.push(c);
            pending = false;
        }
        i += 1;
    }
    proof {
        assert(v@.subrange(0, v@.len() as int) =~= v@);
    }
    if out.len() == 0 {
        String::from_str("待识别项目")
    } else {
        string_of(out.as_slice())
    }
}

/// Strictly ascending, so without repeats: what a `BTreeSet` of strings holds.
pub open spec fn strictly_sorted(v: Seq<Seq<char>>) -> bool {
    forall|i: int, j: int| 0 <= i < j < v.len() ==> crate::text::lex_lt(#[trigger] v[i], #[trigger] v[j])
}

/// The project name of an archive: its only top-level folder, where it has
/// exactly one top-level entry and that has no `.`; else the file stem of the
/// source name.
pub open spec fn spec_infer_project_name(source_name: Seq<char>, top_levels: Seq<Seq<char>>) -> Seq<char> {
    if top_levels.len() == 1 && !contains(top_levels[0], "."@) {
        spec_clean_project_name(top_levels[0])
    } else {
        spec_clean_project_name(
            match file_stem(source_name) {
                Some(s) => s,
                None => "待识别项目"@,
            },
        )
    }
}

/// The project name of an archive (see `spec_infer_project_name`). The
/// top-level entries form a set, kept in ascending order.
pub fn infer_project_name(source_name: &str, top_levels: &Vec<String>) -> (r: String)
    requires
        strictly_sorted(crate::projects::strings_view(top_levels@)),
    ensures
        r@ == spec_infer_project_name(source_name@, crate::projects::strings_view(top_levels@)),
{
    if top_levels.len() == 1 {
        let only = chars_of(top_levels[0].as_str());
        proof {
            reveal_strlit(".");
        }
        if !crate::text::contains_lit(only.as_slice(), ".") {
            return clean_project_name(top_levels[0].as_str());
        }
    }
    let s = chars_of(source_name);
    match path_file_stem(s.as_slice()) {
        Some(stem) => {
            let st = string_of(stem.as_slice());
            clean_project_name(st.as_str())
        },
        None => clean_project_name("待识别项目"),
    }
}

// ----------------------------------------------------------------------------
// Uploaded file names
// ----------------------------------------------------------------------------

/// `char::is_control`: the C0 and C1 control characters and DEL.
pub open spec fn is_control(c: char) -> bool {
    (c as u32) <= 0x1f || (0x7f <= (c as u32) && (c as u32) <= 0x9f)
}

/// The characters that are not control characters, in order.
pub open spec fn without_controls(s: Seq<char>) -> Seq<char>
    decreases s.len(),
{
    if s.len() == 0 {
        s
    } else if is_control(s.last()) {
        without_controls(s.drop_last())
    } else {
        without_controls(s.drop_last()).push(s.last())
    }
}

/// `\` read as `/`.
pub open spec fn forward_slashes(s: Seq<char>) -> Seq<char> {
    s.map_values(|c: char| if c == '\\' { '/' } else { c })
}

/// Nothing but dots and spaces.
pub open spec fn only_dots_and_spaces(s: Seq<char>) -> bool {
    forall|i: int| 0 <= i < s.len() ==> #[trigger] s[i] == '.' || s[i] == ' '
}

/// The name under which an upload is stored: the last component of the given
/// name (`\` read as `/`), control characters dropped, at most 180
/// characters; `attachment` where that leaves nothing but dots and spaces.
pub open spec fn spec_safe_upload_name(value: Seq<char>) -> Seq<char> {
    let base = match file_name(forward_slashes(value)) {
        Some(n) => n,
        None => "attachment"@,
    };
    let cleaned = take(without_controls(base), 180);
    if only_dots_and_spaces(cleaned) {
        "attachment"@
    } else {
        cleaned
    }
}

pub fn safe_upload_name(value: &str) -> (r: String)
    ensures
        r@ == spec_safe_upload_name(value@),
{
    let v = chars_of(value);
    let mut normalized: Vec<char> = Vec::new();
    let mut i: usize = 0;
    while i < v.len()
        invariant
            0 <= i <= v@.len(),
            v@ == value@,
            normalized@ == forward_slashes(v@.subrange(0, i as int)),
        decreases v.len() - i,
    {
        normalized.push(if v[i] == '\\' { '/' } else { v[i] });
        proof {
            assert(forward_slashes(v@.subrange(0, i + 1)) =~= forward_slashes(
                v@.subrange(0, i as int),
            ).push(if v@[i as int] == '\\' { '/' } else { v@[i as int] }));
        }
        i += 1;
    }
    proof {
        assert(v@.subrange(0, v@.len() as int) =~= v@);
    }
    let base = match path_file_name(normalized.as_slice()) {
        Some(n) => n,
        None => lit("attachment"),
    };
    proof {
        reveal_strlit("attachment");
    }
    let mut kept: Vec<char> = Vec::new();
    let mut k: usize = 0;
    proof {
        assert(base@.subrange(0, 0) =~= Seq::<char>::empty());
    }
    while k < base.len()
        invariant
            0 <= k <= base@.len(),
            kept@ == without_controls(base@.subrange(0, k as int)),
        decreases base.len() - k,
    {
        proof {
            let next = base@.subrange(0, k + 1);
            assert(next.drop_last() =~= base@.subrange(0, k as int));
            assert(next.last() == base@[k as int]);
        }
        let code: u32 = base[k] as u32;
        if !(code <= 0x1f || (0x7f <= code && code <= 0x9f)) {
            kept.push(base[k]);
        }
        k += 1;
    }
    proof {
        assert(base@.subrange(0, base@.len() as int) =~= base@);
    }
    let cleaned = take_chars(kept.as_slice(), 180);
    let ghost expected = take(
        without_controls(
            match file_name(forward_slashes(value@)) {
                Some(n) => n,
                None => "attachment"@,
            },
        ),
        180,
    );
    assert(cleaned@ == expected);
    let mut m: usize = 0;
    while m < cleaned.len()
        invariant
            0 <= m <= cleaned@.len(),
            cleaned@ == expected,
            expected == take(
                without_controls(
                    match file_name(forward_slashes(value@)) {
                        Some(n) => n,
                        None => "attachment"@,
                    },
                ),
                180,
            ),
            forall|j: int| 0 <= j < m ==> #[trigger] cleaned@[j] == '.' || cleaned@[j] == ' ',
        decreases cleaned.len() - m,
    {
        if cleaned[m] != '.' && cleaned[m] != ' ' {
            assert(!only_dots_and_spaces(cleaned@));
            return string_of(cleaned.as_slice());
        }
        m += 1;
    }
    String::from_str("attachment")
}

/// A file whose extension is `zip` in any ASCII case.
pub open spec fn spec_is_zip_path(path: Seq<char>) -> bool {
    match extension(path) {
        Some(e) => ascii_lowercase(e) == "zip"@,
        None => false,
    }
}

pub fn is_zip_path(path: &str) -> (r: bool)
    ensures
        r == spec_is_zip_path(path@),
{
    let p = chars_of(path);
    match path_extension(p.as_slice()) {
        Some(e) => {
            let l = to_ascii_lowercase(e.as_slice());
            eq_lit(l.as_slice(), "zip")
        },
        None => false,
    }
}

// ----------------------------------------------------------------------------
// Paths as stored
// ----------------------------------------------------------------------------

/// The plain names of a path: pieces that are neither empty, `.` nor `..`.
pub open spec fn plain_names(pieces: Seq<Seq<char>>) -> Seq<Seq<char>>
    decreases pieces.len(),
{
    if pieces.len() == 0 {
        Seq::empty()
    } else {
        let rest = plain_names(pieces.drop_last());
        let p = pieces.last();
        if p.len() == 0 || p == dot() || p == dot_dot() {
            rest
        } else {
            rest.push(p)
        }
    }
}

/// A path as it is written into records: its plain names joined by `/`.
pub open spec fn spec_path_for_json(path: Seq<char>) -> Seq<char> {
    crate::text::join(plain_names(path_pieces(path)), "/"@)
}

pub fn path_for_json(path: &str) -> (r: String)
    ensures
        r@ == spec_path_for_json(path@),
{
    let p = chars_of(path);
    let seps = lit("/");
    proof {
        reveal_strlit("/");
        assert(seps@ =~= seq!['/']);
    }
    let pieces = split_any(p.as_slice(), seps.as_slice());
    let ghost all = path_pieces(p@);
    let mut names: Vec<String> = Vec::new();
    let mut i: usize = 0;
    proof {
        assert(all.subrange(0, 0) =~= Seq::<Seq<char>>::empty());
    }
    while i < pieces.len()
        invariant
            0 <= i <= pieces@.len(),
            all == path_pieces(p@),
            p@ == path@,
            pieces@.len() == all.len(),
            forall|k: int| 0 <= k < pieces@.len() ==> #[trigger] pieces@[k]@ == all[k],
            crate::projects::strings_view(names@) == plain_names(all.subrange(0, i as int)),
        decreases pieces.len() - i,
    {
        proof {
            let next = all.subrange(0, i + 1);
            assert(next.drop_last() =~= all.subrange(0, i as int));
            assert(next.last() == pieces@[i as int]@);
            reveal_strlit(".");
            reveal_strlit("..");
            assert("."@ =~= dot());
            assert(".."@ =~= dot_dot());
        }
        let piece = &pieces[i];
        if piece.len() > 0 && !eq_lit(piece.as_slice(), ".") && !eq_lit(piece.as_slice(), "..") {
            let ghost before = names@;
            names.push(string_of(piece.as_slice()));
            proof {
                assert(crate::projects::strings_view(names@) =~= crate::projects::strings_view(
                    before,
                ).push(pieces@[i as int]@));
            }
        }
        i += 1;
    }
    proof {
        assert(all.subrange(0, all.len() as int) =~= all);
        assert(crate::projects::strings_view(names@) =~= names@.map_values(|s: String| s@));
    }
    crate::text::join_strings(&names, "/")
}

} // verus!
