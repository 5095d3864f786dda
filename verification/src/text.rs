//! Character-level text helpers shared by the whole library.
//!
//! Text is handled as sequences of Unicode scalar values: `&str`/`String` at
//! the edges, `Vec<char>` inside, and `Seq<char>` in every contract.

use vstd::prelude::*;

verus! {

// ----------------------------------------------------------------------------
// Character classes
// ----------------------------------------------------------------------------

/// Unicode `White_Space`, the property behind `char::is_whitespace` and `str::trim`.
pub open spec fn is_white_space(c: char) -> bool {
    ||| c == '\t'
    ||| c == '\n'
    ||| c == '\x0B'
    ||| c == '\x0C'
    ||| c == '\r'
    ||| c == ' '
    ||| c == '\u{85}'
    ||| c == '\u{A0}'
    ||| c == '\u{1680}'
    ||| ('\u{2000}' <= c && c <= '\u{200A}')
    ||| c == '\u{2028}'
    ||| c == '\u{2029}'
    ||| c == '\u{202F}'
    ||| c == '\u{205F}'
    ||| c == '\u{3000}'
}

pub fn white_space(c: char) -> (r: bool)
    ensures
        r == is_white_space(c),
{
    c == '\t' || c == '\n' || c == '\x0B' || c == '\x0C' || c == '\r' || c == ' ' || c == '\u{85}'
        || c == '\u{A0}' || c == '\u{1680}' || ('\u{2000}' <= c && c <= '\u{200A}') || c
        == '\u{2028}' || c == '\u{2029}' || c == '\u{202F}' || c == '\u{205F}' || c == '\u{3000}'
}

pub open spec fn is_ascii_digit(c: char) -> bool {
    '0' <= c && c <= '9'
}

pub open spec fn is_ascii_lower(c: char) -> bool {
    'a' <= c && c <= 'z'
}

pub open spec fn is_ascii_upper(c: char) -> bool {
    'A' <= c && c <= 'Z'
}

pub open spec fn is_ascii_alnum(c: char) -> bool {
    is_ascii_digit(c) || is_ascii_lower(c) || is_ascii_upper(c)
}

/// `char::to_ascii_lowercase`.
pub open spec fn ascii_lower(c: char) -> char {
    if is_ascii_upper(c) {
        ((c as u32) + 32) as char
    } else {
        c
    }
}

pub fn to_ascii_lower_char(c: char) -> (r: char)
    ensures
        r == ascii_lower(c),
{
    if 'A' <= c && c <= 'Z' {
        let code: u32 = (c as u32) + 32;
        assert('a' as u32 <= code <= 'z' as u32);
        char_from_ascii_code(code)
    } else {
        c
    }
}

fn char_from_ascii_code(code: u32) -> (r: char)
    requires
        code < 128,
    ensures
        r == code as char,
{
    let b: u8 = code as u8;
    b as char
}

/// `str::to_ascii_lowercase`.
pub open spec fn ascii_lowercase(s: Seq<char>) -> Seq<char> {
    s.map_values(|c: char| ascii_lower(c))
}

// ----------------------------------------------------------------------------
// Sequence predicates
// ----------------------------------------------------------------------------

pub open spec fn starts_with(s: Seq<char>, p: Seq<char>) -> bool {
    p.len() <= s.len() && s.subrange(0, p.len() as int) == p
}

pub open spec fn ends_with(s: Seq<char>, p: Seq<char>) -> bool {
    p.len() <= s.len() && s.subrange(s.len() - p.len(), s.len() as int) == p
}

pub open spec fn occurs_at(s: Seq<char>, p: Seq<char>, i: int) -> bool {
    0 <= i && i + p.len() <= s.len() && s.subrange(i, i + p.len()) == p
}

/// `str::contains` with a string pattern.
pub open spec fn contains(s: Seq<char>, p: Seq<char>) -> bool {
    exists|i: int| occurs_at(s, p, i)
}

/// Some option in the list occurs in `s`.
pub open spec fn contains_any(s: Seq<char>, options: Seq<&str>) -> bool {
    exists|k: int| 0 <= k < options.len() && contains(s, #[trigger] options[k]@)
}

/// `s` equals one of the options.
pub open spec fn one_of(s: Seq<char>, options: Seq<&str>) -> bool {
    exists|k: int| 0 <= k < options.len() && #[trigger] options[k]@ == s
}

/// What a text contains, a text around it contains too.
pub proof fn lemma_contains_within(p: Seq<char>, x: Seq<char>, q: Seq<char>, n: Seq<char>)
    requires
        contains(x, n),
    ensures
        contains(p + x + q, n),
{
    let i = choose|i: int| occurs_at(x, n, i);
    let w = p + x + q;
    assert(w.subrange(p.len() + i, p.len() + i + n.len()) =~= x.subrange(i, i + n.len()));
    assert(occurs_at(w, n, p.len() + i));
}

/// The first `n` characters, or all of them when there are fewer (`chars().take(n)`).
pub open spec fn take(s: Seq<char>, n: int) -> Seq<char> {
    if n < s.len() {
        s.subrange(0, n)
    } else {
        s
    }
}

// ----------------------------------------------------------------------------
// Trimming
// ----------------------------------------------------------------------------

pub open spec fn trim_start(s: Seq<char>) -> Seq<char>
    decreases s.len(),
{
    if s.len() > 0 && is_white_space(s[0]) {
        trim_start(s.drop_first())
    } else {
        s
    }
}

pub open spec fn trim_end(s: Seq<char>) -> Seq<char>
    decreases s.len(),
{
    if s.len() > 0 && is_white_space(s.last()) {
        trim_end(s.drop_last())
    } else {
        s
    }
}

/// `str::trim`: leading and trailing `White_Space` removed.
pub open spec fn trim(s: Seq<char>) -> Seq<char> {
    trim_end(trim_start(s))
}

/// Every character is white space.
pub open spec fn all_white(s: Seq<char>) -> bool {
    forall|i: int| 0 <= i < s.len() ==> is_white_space(#[trigger] s[i])
}

pub proof fn lemma_trim_start_skip(s: Seq<char>, i: int)
    requires
        0 <= i <= s.len(),
        forall|j: int| 0 <= j < i ==> is_white_space(#[trigger] s[j]),
    ensures
        trim_start(s) == trim_start(s.subrange(i, s.len() as int)),
    decreases i,
{
    if i > 0 {
        assert(s.drop_first() =~= s.subrange(1, s.len() as int));
        lemma_trim_start_skip(s.drop_first(), i - 1);
        assert(s.drop_first().subrange(i - 1, s.drop_first().len() as int) =~= s.subrange(
            i,
            s.len() as int,
        ));
    } else {
        assert(s.subrange(0, s.len() as int) =~= s);
    }
}

pub proof fn lemma_trim_end_cut(s: Seq<char>, k: int)
    requires
        0 <= k <= s.len(),
        forall|j: int| k <= j < s.len() ==> is_white_space(#[trigger] s[j]),
    ensures
        trim_end(s) == trim_end(s.subrange(0, k)),
    decreases s.len() - k,
{
    if k < s.len() {
        assert(s.drop_last() =~= s.subrange(0, s.len() - 1));
        lemma_trim_end_cut(s.drop_last(), k);
        assert(s.drop_last().subrange(0, k) =~= s.subrange(0, k));
    } else {
        assert(s.subrange(0, k) =~= s);
    }
}

proof fn lemma_trim_start_empty(s: Seq<char>)
    ensures
        (trim_start(s).len() == 0) == all_white(s),
        trim_start(s).len() > 0 ==> !is_white_space(trim_start(s)[0]),
        trim_start(s).len() <= s.len(),
        trim_start(s) == s.subrange(s.len() - trim_start(s).len(), s.len() as int),
    decreases s.len(),
{
    if s.len() > 0 && is_white_space(s[0]) {
        lemma_trim_start_empty(s.drop_first());
        if all_white(s.drop_first()) {
            assert forall|i: int| 0 <= i < s.len() implies is_white_space(#[trigger] s[i]) by {
                if i > 0 {
                    assert(s[i] == s.drop_first()[i - 1]);
                }
            }
        } else {
            let j = choose|j: int|
                0 <= j < s.drop_first().len() && !is_white_space(#[trigger] s.drop_first()[j]);
            assert(s[j + 1] == s.drop_first()[j]);
        }
        assert(s.drop_first().subrange(
            s.drop_first().len() - trim_start(s).len(),
            s.drop_first().len() as int,
        ) =~= s.subrange(s.len() - trim_start(s).len(), s.len() as int));
    } else {
        assert(s.subrange(0, s.len() as int) =~= s);
        if s.len() > 0 {
            assert(!is_white_space(s[0]));
        }
    }
}

proof fn lemma_trim_end_empty(s: Seq<char>)
    ensures
        (trim_end(s).len() == 0) == all_white(s),
        trim_end(s).len() > 0 ==> !is_white_space(trim_end(s).last()),
        trim_end(s).len() <= s.len(),
        trim_end(s) == s.subrange(0, trim_end(s).len() as int),
    decreases s.len(),
{
    if s.len() > 0 && is_white_space(s.last()) {
        lemma_trim_end_empty(s.drop_last());
        if all_white(s.drop_last()) {
            assert forall|i: int| 0 <= i < s.len() implies is_white_space(#[trigger] s[i]) by {
                if i < s.len() - 1 {
                    assert(s[i] == s.drop_last()[i]);
                }
            }
        } else {
            let j = choose|j: int|
                0 <= j < s.drop_last().len() && !is_white_space(#[trigger] s.drop_last()[j]);
            assert(s[j] == s.drop_last()[j]);
        }
        assert(s.drop_last().subrange(0, trim_end(s).len() as int) =~= s.subrange(
            0,
            trim_end(s).len() as int,
        ));
    } else {
        assert(s.subrange(0, s.len() as int) =~= s);
        if s.len() > 0 {
            assert(!is_white_space(s[s.len() - 1]));
        }
    }
}

/// Trimming twice is trimming once.
pub proof fn lemma_trim_idempotent(s: Seq<char>)
    ensures
        trim(trim(s)) == trim(s),
{
    let x = trim_start(s);
    let y = trim_end(x);
    lemma_trim_start_empty(s);
    lemma_trim_end_empty(x);
    if y.len() > 0 {
        assert(y[0] == x[0]);
        assert(trim_start(y) == y);
    } else {
        assert(trim_start(y) == y);
    }
    assert(trim_end(y) == y);
}

// ----------------------------------------------------------------------------
// Conversions between `str`, `String` and `Vec<char>`
// ----------------------------------------------------------------------------

pub fn chars_of(s: &str) -> (v: Vec<char>)
    ensures
        v@ == s@,
{
    let mut v: Vec<char> = Vec::new();
    for c in it: s.chars()
        invariant
            v@ == it.seq().take(it.index() as int),
            it.seq() == s@,
    {
        v.push(c);
    }
    v
}

/// `String::push`.
#[verifier::external_body]
fn string_push(s: &mut String, c: char)
    ensures
        final(s)@ == old(s)@.push(c),
{
    s.push(c);
}

pub fn string_of(v: &[char]) -> (s: String)
    ensures
        s@ == v@,
{
    let mut s = String::new();
    let mut i: usize = 0;
    while i < v.len()
        invariant
            0 <= i <= v@.len(),
            s@ == v@.subrange(0, i as int),
        decreases v.len() - i,
    {
        string_push(&mut s, v[i]);
        assert(v@.subrange(0, i + 1) =~= v@.subrange(0, i as int).push(v@[i as int]));
        i += 1;
    }
    assert(v@.subrange(0, v@.len() as int) =~= v@);
    s
}

pub fn lit(s: &str) -> (v: Vec<char>)
    ensures
        v@ == s@,
{
    chars_of(s)
}

/// Appends `b` to `a`.
pub fn push_all(a: &mut Vec<char>, b: &[char])
    ensures
        final(a)@ == old(a)@ + b@,
{
    let mut i: usize = 0;
    while i < b.len()
        invariant
            0 <= i <= b@.len(),
            a@ == old(a)@ + b@.subrange(0, i as int),
        decreases b.len() - i,
    {
        a.push(b[i]);
        assert(old(a)@ + b@.subrange(0, i + 1) =~= (old(a)@ + b@.subrange(0, i as int)).push(
            b@[i as int],
        ));
        i += 1;
    }
    assert(b@.subrange(0, b@.len() as int) =~= b@);
}

pub fn push_str(a: &mut Vec<char>, b: &str)
    ensures
        final(a)@ == old(a)@ + b@,
{
    let v = chars_of(b);
    push_all(a, v.as_slice());
}

pub fn copy_chars(a: &[char]) -> (r: Vec<char>)
    ensures
        r@ == a@,
{
    let mut r: Vec<char> = Vec::new();
    push_all(&mut r, a);
    assert(Seq::<char>::empty() + a@ =~= a@);
    r
}

/// The characters in `[from, to)`.
pub fn slice_chars(s: &[char], from: usize, to: usize) -> (r: Vec<char>)
    requires
        from <= to <= s@.len(),
    ensures
        r@ == s@.subrange(from as int, to as int),
{
    let mut r: Vec<char> = Vec::new();
    let mut i: usize = from;
    while i < to
        invariant
            from <= i <= to <= s@.len(),
            r@ == s@.subrange(from as int, i as int),
        decreases to - i,
    {
        r.push(s[i]);
        assert(s@.subrange(from as int, i + 1) =~= s@.subrange(from as int, i as int).push(
            s@[i as int],
        ));
        i += 1;
    }
    r
}

/// `chars().take(n).collect()`.
pub fn take_chars(s: &[char], n: usize) -> (r: Vec<char>)
    ensures
        r@ == take(s@, n as int),
{
    if n < s.len() {
        slice_chars(s, 0, n)
    } else {
        let r = slice_chars(s, 0, s.len());
        assert(s@.subrange(0, s@.len() as int) =~= s@);
        r
    }
}

// ----------------------------------------------------------------------------
// Comparisons and searches
// ----------------------------------------------------------------------------

pub fn chars_eq(a: &[char], b: &[char]) -> (r: bool)
    ensures
        r == (a@ == b@),
{
    if a.len() != b.len() {
        return false;
    }
    let mut i: usize = 0;
    while i < a.len()
        invariant
            0 <= i <= a@.len(),
            a@.len() == b@.len(),
            forall|j: int| 0 <= j < i ==> a@[j] == b@[j],
        decreases a.len() - i,
    {
        if a[i] != b[i] {
            assert(a@[i as int] != b@[i as int]);
            return false;
        }
        i += 1;
    }
    assert(a@ =~= b@);
    true
}

/// `a` equals the literal `b`.
pub fn eq_lit(a: &[char], b: &str) -> (r: bool)
    ensures
        r == (a@ == b@),
{
    let v = chars_of(b);
    chars_eq(a, v.as_slice())
}

/// `a` equals one of `options`.
pub fn is_one_of(a: &[char], options: &[&str]) -> (r: bool)
    ensures
        r == one_of(a@, options@),
{
    let mut k: usize = 0;
    while k < options.len()
        invariant
            0 <= k <= options@.len(),
            forall|j: int| 0 <= j < k ==> #[trigger] options@[j]@ != a@,
        decreases options.len() - k,
    {
        if eq_lit(a, options[k]) {
            return true;
        }
        k += 1;
    }
    false
}

/// `p` occurs in `s` at position `i`.
pub fn matches_at(s: &[char], p: &[char], i: usize) -> (r: bool)
    ensures
        r == occurs_at(s@, p@, i as int),
{
    if i > s.len() || p.len() > s.len() - i {
        return false;
    }
    let mut j: usize = 0;
    while j < p.len()
        invariant
            0 <= j <= p@.len(),
            i + p@.len() <= s@.len(),
            i + p.len() <= s.len(),
            forall|k: int| 0 <= k < j ==> s@[i + k] == p@[k],
        decreases p.len() - j,
    {
        assert(i + j < s@.len());
        if s[i + j] != p[j] {
            assert(s@.subrange(i as int, i + p@.len())[j as int] != p@[j as int]);
            return false;
        }
        j += 1;
    }
    assert(s@.subrange(i as int, i + p@.len()) =~= p@);
    true
}

pub fn starts_with_chars(s: &[char], p: &[char]) -> (r: bool)
    ensures
        r == starts_with(s@, p@),
{
    let r = matches_at(s, p, 0);
    r
}

pub fn starts_with_lit(s: &[char], p: &str) -> (r: bool)
    ensures
        r == starts_with(s@, p@),
{
    let v = chars_of(p);
    starts_with_chars(s, v.as_slice())
}

pub fn ends_with_chars(s: &[char], p: &[char]) -> (r: bool)
    ensures
        r == ends_with(s@, p@),
{
    if p.len() > s.len() {
        return false;
    }
    let r = matches_at(s, p, s.len() - p.len());
    r
}

pub fn ends_with_lit(s: &[char], p: &str) -> (r: bool)
    ensures
        r == ends_with(s@, p@),
{
    let v = chars_of(p);
    ends_with_chars(s, v.as_slice())
}

/// The first position at which `p` occurs in `s`.
pub fn find(s: &[char], p: &[char]) -> (r: Option<usize>)
    ensures
        match r {
            Some(i) => occurs_at(s@, p@, i as int) && forall|j: int|
                0 <= j < i ==> !occurs_at(s@, p@, j),
            None => !contains(s@, p@),
        },
{
    if p.len() > s.len() {
        assert forall|j: int| !occurs_at(s@, p@, j) by {}
        return None;
    }
    let last = s.len() - p.len();
    let mut i: usize = 0;
    loop
        invariant
            0 <= i <= last,
            last + p@.len() == s@.len(),
            forall|j: int| 0 <= j < i ==> !occurs_at(s@, p@, j),
        ensures
            forall|j: int| 0 <= j <= last ==> !occurs_at(s@, p@, j),
        decreases last - i,
    {
        if matches_at(s, p, i) {
            return Some(i);
        }
        if i == last {
            break;
        }
        i += 1;
    }
    assert forall|j: int| !occurs_at(s@, p@, j) by {
        if 0 <= j && j + p@.len() <= s@.len() {
            assert(j <= last);
        }
    }
    None
}

pub fn contains_chars(s: &[char], p: &[char]) -> (r: bool)
    ensures
        r == contains(s@, p@),
{
    match find(s, p) {
        Some(_) => true,
        None => false,
    }
}

pub fn contains_lit(s: &[char], p: &str) -> (r: bool)
    ensures
        r == contains(s@, p@),
{
    let v = chars_of(p);
    contains_chars(s, v.as_slice())
}

/// One of `options` occurs in `s`.
pub fn contains_any_of(s: &[char], options: &[&str]) -> (r: bool)
    ensures
        r == contains_any(s@, options@),
{
    let mut k: usize = 0;
    while k < options.len()
        invariant
            0 <= k <= options@.len(),
            forall|j: int| 0 <= j < k ==> !contains(s@, #[trigger] options@[j]@),
        decreases options.len() - k,
    {
        if contains_lit(s, options[k]) {
            return true;
        }
        k += 1;
    }
    false
}

/// The first position that holds `c`.
pub fn find_char(s: &[char], c: char) -> (r: Option<usize>)
    ensures
        match r {
            Some(i) => i < s@.len() && s@[i as int] == c && forall|j: int| 0 <= j < i ==> s@[j] != c,
            None => !s@.contains(c),
        },
{
    let mut i: usize = 0;
    while i < s.len()
        invariant
            0 <= i <= s@.len(),
            forall|j: int| 0 <= j < i ==> s@[j] != c,
        decreases s.len() - i,
    {
        if s[i] == c {
            return Some(i);
        }
        i += 1;
    }
    None
}

pub fn has_char(s: &[char], c: char) -> (r: bool)
    ensures
        r == s@.contains(c),
{
    match find_char(s, c) {
        Some(i) => {
            assert(s@[i as int] == c);
            true
        },
        None => false,
    }
}

// ----------------------------------------------------------------------------
// Case and white space
// ----------------------------------------------------------------------------

pub fn to_ascii_lowercase(s: &[char]) -> (r: Vec<char>)
    ensures
        r@ == ascii_lowercase(s@),
{
    let mut r: Vec<char> = Vec::new();
    let mut i: usize = 0;
    while i < s.len()
        invariant
            0 <= i <= s@.len(),
            r@ == ascii_lowercase(s@.subrange(0, i as int)),
        decreases s.len() - i,
    {
        let c = to_ascii_lower_char(s[i]);
        r.push(c);
        assert(ascii_lowercase(s@.subrange(0, i + 1)) =~= ascii_lowercase(
            s@.subrange(0, i as int),
        ).push(c));
        i += 1;
    }
    assert(s@.subrange(0, s@.len() as int) =~= s@);
    r
}

/// The bounds `[a, b)` of the trimmed text.
pub fn trim_bounds(s: &[char]) -> (r: (usize, usize))
    ensures
        r.0 <= r.1 <= s@.len(),
        trim(s@) == s@.subrange(r.0 as int, r.1 as int),
{
    let mut a: usize = 0;
    while a < s.len() && white_space(s[a])
        invariant
            0 <= a <= s@.len(),
            forall|j: int| 0 <= j < a ==> is_white_space(#[trigger] s@[j]),
        decreases s.len() - a,
    {
        a += 1;
    }
    proof {
        lemma_trim_start_skip(s@, a as int);
        let rest = s@.subrange(a as int, s@.len() as int);
        if rest.len() > 0 {
            assert(rest[0] == s@[a as int]);
        }
    }
    let mut b: usize = s.len();
    while b > a && white_space(s[b - 1])
        invariant
            a <= b <= s@.len(),
            forall|j: int| b <= j < s@.len() ==> is_white_space(#[trigger] s@[j]),
        decreases b - a,
    {
        b -= 1;
    }
    proof {
        let rest = s@.subrange(a as int, s@.len() as int);
        assert(trim_start(s@) == rest);
        lemma_trim_end_cut(rest, b - a);
        assert(rest.subrange(0, b - a) =~= s@.subrange(a as int, b as int));
        let kept = s@.subrange(a as int, b as int);
        if kept.len() > 0 {
            assert(kept.last() == s@[b - 1]);
        }
    }
    (a, b)
}

pub fn trim_chars(s: &[char]) -> (r: Vec<char>)
    ensures
        r@ == trim(s@),
{
    let (a, b) = trim_bounds(s);
    slice_chars(s, a, b)
}

/// `str::trim` followed by `to_owned`.
pub fn trim_str(s: &str) -> (r: String)
    ensures
        r@ == trim(s@),
{
    let v = chars_of(s);
    let t = trim_chars(v.as_slice());
    string_of(t.as_slice())
}

/// `!s.trim().is_empty()`.
pub fn is_blank(s: &[char]) -> (r: bool)
    ensures
        r == (trim(s@).len() == 0),
{
    let (a, b) = trim_bounds(s);
    a == b
}

// ----------------------------------------------------------------------------
// Unicode lowercase (std)
// ----------------------------------------------------------------------------

/// Every character is ASCII.
pub open spec fn is_ascii_text(s: Seq<char>) -> bool {
    forall|i: int| 0 <= i < s.len() ==> (#[trigger] s[i] as u32) < 128
}

/// What `str::to_lowercase` returns for a text with a character beyond
/// ASCII: the Unicode lowercase mapping of the text.
pub uninterp spec fn non_ascii_lowercase(s: Seq<char>) -> Seq<char>;

/// What `str::to_lowercase` returns: on ASCII text, `A` to `Z` lower-cased
/// and the rest kept; otherwise the Unicode lowercase mapping.
pub open spec fn unicode_lowercase(s: Seq<char>) -> Seq<char> {
    if is_ascii_text(s) {
        ascii_lowercase(s)
    } else {
        non_ascii_lowercase(s)
    }
}

/// Calls `str::to_lowercase`, whose result is the Unicode `Lowercase` mapping of
/// its argument and nothing else. On ASCII text it lower-cases as
/// `to_ascii_lowercase` does: std documents `to_lowercase` as lower-casing
/// ASCII characters in addition to the others, and the only ASCII characters
/// with a lower-case mapping are `A` to `Z`. Beyond ASCII the mapping tables
/// are not written out here: that result is only named.
#[verifier::external_body]
pub(crate) fn to_lowercase(s: &[char]) -> (r: Vec<char>)
    ensures
        is_ascii_text(s@) ==> r@ == ascii_lowercase(s@),
        !is_ascii_text(s@) ==> r@ == non_ascii_lowercase(s@),
{
    let text: String = s.iter().collect();
    text.to_lowercase().chars().collect()
}

/// Text with no white space at either end is its own trim.
pub proof fn lemma_trim_plain(s: Seq<char>)
    requires
        s.len() > 0 ==> !is_white_space(s[0]) && !is_white_space(s.last()),
    ensures
        trim(s) == s,
{
}

/// Lower-casing ASCII text without capitals changes nothing.
pub proof fn lemma_lowercase_plain(s: Seq<char>)
    requires
        forall|i: int| 0 <= i < s.len() ==> (#[trigger] s[i] as u32) < 128 && !is_ascii_upper(s[i]),
    ensures
        unicode_lowercase(s) == s,
{
    assert(ascii_lowercase(s) =~= s);
}

// ----------------------------------------------------------------------------
// Byte length of the UTF-8 encoding
// ----------------------------------------------------------------------------

/// `char::len_utf8`.
pub open spec fn char_utf8_len(c: char) -> nat {
    if (c as u32) < 0x80 {
        1
    } else if (c as u32) < 0x800 {
        2
    } else if (c as u32) < 0x10000 {
        3
    } else {
        4
    }
}

/// `str::len`: the number of bytes of the UTF-8 encoding.
pub open spec fn utf8_len(s: Seq<char>) -> nat
    decreases s.len(),
{
    if s.len() == 0 {
        0
    } else {
        utf8_len(s.drop_last()) + char_utf8_len(s.last())
    }
}

pub fn char_len_utf8(c: char) -> (r: usize)
    ensures
        r == char_utf8_len(c),
{
    let code: u32 = c as u32;
    if code < 0x80 {
        1
    } else if code < 0x800 {
        2
    } else if code < 0x10000 {
        3
    } else {
        4
    }
}

/// The UTF-8 byte length, saturated at `usize::MAX`.
pub fn utf8_len_of(s: &[char]) -> (r: usize)
    ensures
        r == (if utf8_len(s@) <= usize::MAX {
            utf8_len(s@)
        } else {
            usize::MAX as nat
        }),
{
    let mut total: usize = 0;
    let mut i: usize = 0;
    while i < s.len()
        invariant
            0 <= i <= s@.len(),
            total == (if utf8_len(s@.subrange(0, i as int)) <= usize::MAX {
                utf8_len(s@.subrange(0, i as int))
            } else {
                usize::MAX as nat
            }),
        decreases s.len() - i,
    {
        let w = char_len_utf8(s[i]);
        proof {
            let next = s@.subrange(0, i + 1);
            assert(next.drop_last() =~= s@.subrange(0, i as int));
            assert(next.last() == s@[i as int]);
        }
        if total <= usize::MAX - w {
            total = total + w;
        } else {
            total = usize::MAX;
        }
        i += 1;
    }
    assert(s@.subrange(0, s@.len() as int) =~= s@);
    total
}

// ----------------------------------------------------------------------------
// Replacing
// ----------------------------------------------------------------------------

/// `str::replace(s, p, w)` for a non-empty pattern: every occurrence of `p`,
/// taken from the left without overlap, replaced by `w`.
pub open spec fn replace_all(s: Seq<char>, p: Seq<char>, w: Seq<char>) -> Seq<char>
    decreases s.len(),
{
    if p.len() == 0 || s.len() == 0 {
        s
    } else if starts_with(s, p) {
        w + replace_all(s.subrange(p.len() as int, s.len() as int), p, w)
    } else {
        seq![s[0]] + replace_all(s.subrange(1, s.len() as int), p, w)
    }
}

/// `str::replace` with a non-empty pattern.
pub fn replace_chars(s: &[char], p: &[char], w: &[char]) -> (r: Vec<char>)
    requires
        p@.len() > 0,
    ensures
        r@ == replace_all(s@, p@, w@),
{
    let mut out: Vec<char> = Vec::new();
    let mut i: usize = 0;
    proof {
        assert(s@.subrange(0, s@.len() as int) =~= s@);
        assert(out@ + s@ =~= s@);
    }
    while i < s.len()
        invariant
            0 <= i <= s@.len(),
            p@.len() > 0,
            out@ + replace_all(s@.subrange(i as int, s@.len() as int), p@, w@) == replace_all(
                s@,
                p@,
                w@,
            ),
        decreases s.len() - i,
    {
        let ghost rest = s@.subrange(i as int, s@.len() as int);
        let ghost before = out@;
        if matches_at(s, p, i) {
            proof {
                assert(rest.subrange(0, p@.len() as int) =~= s@.subrange(i as int, i + p@.len()));
                assert(rest.subrange(p@.len() as int, rest.len() as int) =~= s@.subrange(
                    i + p@.len(),
                    s@.len() as int,
                ));
            }
            push_all(&mut out, w);
            proof {
                assert(out@ =~= before + w@);
                assert((before + w@) + replace_all(
                    s@.subrange(i + p@.len(), s@.len() as int),
                    p@,
                    w@,
                ) =~= before + (w@ + replace_all(
                    s@.subrange(i + p@.len(), s@.len() as int),
                    p@,
                    w@,
                )));
            }
            i = i + p.len();
        } else {
            proof {
                if starts_with(rest, p@) {
                    assert(rest.subrange(0, p@.len() as int) =~= s@.subrange(
                        i as int,
                        i + p@.len(),
                    ));
                }
                assert(rest.subrange(1, rest.len() as int) =~= s@.subrange(
                    i + 1,
                    s@.len() as int,
                ));
                assert(rest[0] == s@[i as int]);
            }
            out.push(s[i]);
            proof {
                assert(out@ =~= before.push(s@[i as int]));
                assert(before.push(s@[i as int]) + replace_all(
                    s@.subrange(i + 1, s@.len() as int),
                    p@,
                    w@,
                ) =~= before + (seq![s@[i as int]] + replace_all(
                    s@.subrange(i + 1, s@.len() as int),
                    p@,
                    w@,
                )));
            }
            i = i + 1;
        }
    }
    proof {
        assert(s@.subrange(s@.len() as int, s@.len() as int) =~= Seq::<char>::empty());
        assert(out@ + Seq::<char>::empty() =~= out@);
    }
    out
}

// ----------------------------------------------------------------------------
// Order
// ----------------------------------------------------------------------------

/// The order of `String`: lexicographic by character. (UTF-8 keeps the order
/// of code points, so this is also the order of the bytes.)
pub open spec fn lex_lt(a: Seq<char>, b: Seq<char>) -> bool
    decreases a.len(),
{
    if b.len() == 0 {
        false
    } else if a.len() == 0 {
        true
    } else if a[0] != b[0] {
        a[0] < b[0]
    } else {
        lex_lt(a.drop_first(), b.drop_first())
    }
}

pub proof fn lemma_lex_irreflexive(a: Seq<char>)
    ensures
        !lex_lt(a, a),
    decreases a.len(),
{
    if a.len() > 0 {
        lemma_lex_irreflexive(a.drop_first());
    }
}

pub proof fn lemma_lex_asymmetric(a: Seq<char>, b: Seq<char>)
    ensures
        !(lex_lt(a, b) && lex_lt(b, a)),
    decreases a.len(),
{
    if a.len() > 0 && b.len() > 0 && a[0] == b[0] {
        lemma_lex_asymmetric(a.drop_first(), b.drop_first());
    }
}

pub proof fn lemma_lex_transitive(a: Seq<char>, b: Seq<char>, c: Seq<char>)
    requires
        lex_lt(a, b),
        lex_lt(b, c),
    ensures
        lex_lt(a, c),
    decreases a.len(),
{
    if a.len() > 0 && b.len() > 0 && c.len() > 0 && a[0] == b[0] && b[0] == c[0] {
        lemma_lex_transitive(a.drop_first(), b.drop_first(), c.drop_first());
    }
}

pub proof fn lemma_lex_total(a: Seq<char>, b: Seq<char>)
    ensures
        a == b || lex_lt(a, b) || lex_lt(b, a),
    decreases a.len(),
{
    if a.len() > 0 && b.len() > 0 && a[0] == b[0] {
        lemma_lex_total(a.drop_first(), b.drop_first());
        if a.drop_first() == b.drop_first() {
            assert(a =~= seq![a[0]] + a.drop_first());
            assert(b =~= seq![b[0]] + b.drop_first());
        }
    } else if a.len() == 0 && b.len() == 0 {
        assert(a =~= b);
    }
}

proof fn lemma_lex_common_prefix(a: Seq<char>, b: Seq<char>, i: int)
    requires
        0 <= i <= a.len(),
        i <= b.len(),
        forall|j: int| 0 <= j < i ==> a[j] == b[j],
    ensures
        lex_lt(a, b) == lex_lt(
            a.subrange(i, a.len() as int),
            b.subrange(i, b.len() as int),
        ),
    decreases i,
{
    if i > 0 {
        lemma_lex_common_prefix(a.drop_first(), b.drop_first(), i - 1);
        assert(a.drop_first().subrange(i - 1, a.len() - 1) =~= a.subrange(i, a.len() as int));
        assert(b.drop_first().subrange(i - 1, b.len() - 1) =~= b.subrange(i, b.len() as int));
    } else {
        assert(a.subrange(0, a.len() as int) =~= a);
        assert(b.subrange(0, b.len() as int) =~= b);
    }
}

/// `a < b` for strings.
pub fn chars_lt(a: &[char], b: &[char]) -> (r: bool)
    ensures
        r == lex_lt(a@, b@),
{
    let mut i: usize = 0;
    while i < a.len() && i < b.len()
        invariant
            0 <= i <= a@.len(),
            i <= b@.len(),
            forall|j: int| 0 <= j < i ==> a@[j] == b@[j],
        decreases a.len() - i,
    {
        if a[i] != b[i] {
            proof {
                lemma_lex_common_prefix(a@, b@, i as int);
                let ra = a@.subrange(i as int, a@.len() as int);
                let rb = b@.subrange(i as int, b@.len() as int);
                assert(ra[0] == a@[i as int]);
                assert(rb[0] == b@[i as int]);
            }
            return a[i] < b[i];
        }
        i += 1;
    }
    proof {
        lemma_lex_common_prefix(a@, b@, i as int);
    }
    a.len() < b.len()
}

// ----------------------------------------------------------------------------
// Numbers
// ----------------------------------------------------------------------------

pub const DIGIT_CHARS: [char; 10] = ['0', '1', '2', '3', '4', '5', '6', '7', '8', '9'];

/// The decimal digits of `n`, as `format!("{n}")` writes them.
pub open spec fn decimal(n: nat) -> Seq<char>
    decreases n,
{
    if n < 10 {
        seq![DIGIT_CHARS@[n as int]]
    } else {
        decimal(n / 10).push(DIGIT_CHARS@[(n % 10) as int])
    }
}

/// Appends the decimal digits of `n`.
pub fn push_decimal(out: &mut Vec<char>, n: u64)
    ensures
        final(out)@ == old(out)@ + decimal(n as nat),
    decreases n,
{
    if n >= 10 {
        push_decimal(out, n / 10);
    }
    let d: usize = (n % 10) as usize;
    out.push(DIGIT_CHARS[d]);
    proof {
        if n < 10 {
            assert(decimal(n as nat) == seq![DIGIT_CHARS@[n as int]]);
        }
    }
}

/// `items.join(sep)`.
pub open spec fn join(items: Seq<Seq<char>>, sep: Seq<char>) -> Seq<char>
    decreases items.len(),
{
    if items.len() == 0 {
        Seq::empty()
    } else if items.len() == 1 {
        items[0]
    } else {
        join(items.drop_last(), sep) + sep + items.last()
    }
}

/// `items.join(sep)`.
pub fn join_strings(items: &Vec<String>, sep: &str) -> (r: String)
    ensures
        r@ == join(items@.map_values(|s: String| s@), sep@),
{
    let ghost views = items@.map_values(|s: String| s@);
    let mut out: Vec<char> = Vec::new();
    let mut i: usize = 0;
    while i < items.len()
        invariant
            0 <= i <= items@.len(),
            views == items@.map_values(|s: String| s@),
            out@ == join(views.subrange(0, i as int), sep@),
        decreases items.len() - i,
    {
        let ghost before = out@;
        proof {
            let next = views.subrange(0, i + 1);
            assert(next.drop_last() =~= views.subrange(0, i as int));
            assert(next.last() == items@[i as int]@);
        }
        if i > 0 {
            push_str(&mut out, sep);
        }
        push_str(&mut out, items[i].as_str());
        proof {
            if i == 0 {
                assert(out@ =~= items@[0]@);
            } else {
                assert(out@ =~= before + sep@ + items@[i as int]@);
            }
        }
        i += 1;
    }
    proof {
        assert(views.subrange(0, views.len() as int) =~= views);
    }
    string_of(out.as_slice())
}

} // verus!
