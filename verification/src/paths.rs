//! Relative paths as text: splitting, safety, file names and extensions.
//!
//! A path is a sequence of characters separated by `/`.  Components follow
//! `std::path::Path` on Unix: empty pieces and `.` are dropped, `..` is the
//! parent directory.  A leading drive prefix such as `C:` is never treated as
//! a plain name, so that a stored path can not name another volume either.

use vstd::prelude::*;

use crate::text::{
    ascii_lowercase, chars_of, copy_chars, eq_lit, has_char, is_ascii_lower, is_ascii_upper, lit,
    slice_chars, to_ascii_lowercase,
};

verus! {

// ----------------------------------------------------------------------------
// Splitting
// ----------------------------------------------------------------------------

/// `s.split(|c| seps.contains(c))`: the pieces between separators, in order;
/// there is one piece more than there are separators.
pub open spec fn split_seq(s: Seq<char>, seps: Seq<char>) -> Seq<Seq<char>>
    decreases s.len(),
{
    if s.len() == 0 {
        seq![Seq::<char>::empty()]
    } else {
        let rest = split_seq(s.drop_last(), seps);
        if seps.contains(s.last()) {
            rest.push(Seq::<char>::empty())
        } else {
            rest.update(rest.len() - 1, rest.last().push(s.last()))
        }
    }
}

pub proof fn lemma_split_nonempty(s: Seq<char>, seps: Seq<char>)
    ensures
        split_seq(s, seps).len() >= 1,
    decreases s.len(),
{
    if s.len() > 0 {
        lemma_split_nonempty(s.drop_last(), seps);
    }
}

/// Splits at every character that `seps` holds.
pub fn split_any(s: &[char], seps: &[char]) -> (r: Vec<Vec<char>>)
    ensures
        r@.len() == split_seq(s@, seps@).len(),
        forall|k: int| 0 <= k < r@.len() ==> #[trigger] r@[k]@ == split_seq(s@, seps@)[k],
{
    let mut pieces: Vec<Vec<char>> = Vec::new();
    let mut current: Vec<char> = Vec::new();
    let mut i: usize = 0;
    proof {
        assert(s@.subrange(0, 0) =~= Seq::<char>::empty());
    }
    while i < s.len()
        invariant
            0 <= i <= s@.len(),
            pieces@.len() + 1 == split_seq(s@.subrange(0, i as int), seps@).len(),
            forall|k: int|
                0 <= k < pieces@.len() ==> #[trigger] pieces@[k]@ == split_seq(
                    s@.subrange(0, i as int),
                    seps@,
                )[k],
            current@ == split_seq(s@.subrange(0, i as int), seps@).last(),
        decreases s.len() - i,
    {
        let c = s[i];
        let ghost prefix = s@.subrange(0, i as int);
        let ghost next = s@.subrange(0, i + 1);
        proof {
            assert(next.drop_last() =~= prefix);
            assert(next.last() == c);
            lemma_split_nonempty(prefix, seps@);
        }
        if has_char(seps, c) {
            let done = current;
            let ghost before = pieces@;
            pieces.push(done);
            current = Vec::new();
            proof {
                assert(split_seq(next, seps@) == split_seq(prefix, seps@).push(
                    Seq::<char>::empty(),
                ));
                assert forall|k: int| 0 <= k < pieces@.len() implies #[trigger] pieces@[k]@
                    == split_seq(next, seps@)[k] by {
                    if k < pieces@.len() - 1 {
                        assert(pieces@[k] == before[k]);
                    }
                }
            }
        } else {
            current.push(c);
            proof {
                assert(split_seq(next, seps@) == split_seq(prefix, seps@).update(
                    split_seq(prefix, seps@).len() - 1,
                    split_seq(prefix, seps@).last().push(c),
                ));
            }
        }
        i += 1;
    }
    pieces.push(current);
    proof {
        assert(s@.subrange(0, s@.len() as int) =~= s@);
        lemma_split_nonempty(s@, seps@);
    }
    pieces
}

// ----------------------------------------------------------------------------
// Components
// ----------------------------------------------------------------------------

pub open spec fn dot() -> Seq<char> {
    seq!['.']
}

pub open spec fn dot_dot() -> Seq<char> {
    seq!['.', '.']
}

/// `X:` with an ASCII letter `X`: a drive prefix.
pub open spec fn is_drive(p: Seq<char>) -> bool {
    p.len() == 2 && (is_ascii_lower(p[0]) || is_ascii_upper(p[0])) && p[1] == ':'
}

/// The pieces of a path between `/` separators.
pub open spec fn path_pieces(s: Seq<char>) -> Seq<Seq<char>> {
    split_seq(s, seq!['/'])
}

/// Pieces that are components: neither empty nor `.`.
pub open spec fn meaningful(pieces: Seq<Seq<char>>) -> Seq<Seq<char>>
    decreases pieces.len(),
{
    if pieces.len() == 0 {
        Seq::empty()
    } else {
        let rest = meaningful(pieces.drop_last());
        let p = pieces.last();
        if p.len() == 0 || p == dot() {
            rest
        } else {
            rest.push(p)
        }
    }
}

/// A path made of plain names only (`Path::components` all `Normal`): not
/// empty, not absolute, no leading `.` and no `..` component.
pub open spec fn normal_relative(s: Seq<char>) -> bool {
    let pieces = path_pieces(s);
    &&& s.len() > 0
    &&& s[0] != '/'
    &&& pieces[0] != dot()
    &&& forall|k: int| 0 <= k < pieces.len() ==> #[trigger] pieces[k] != dot_dot()
}

/// A path that stays below the directory it is joined to: plain names only,
/// and no drive prefix either.
pub open spec fn safe_relative(s: Seq<char>) -> bool {
    normal_relative(s) && !is_drive(path_pieces(s)[0])
}

/// Whether a path is made of plain names only.
pub fn is_normal_relative_path(path: &str) -> (r: bool)
    ensures
        r == normal_relative(path@),
{
    let s = chars_of(path);
    if s.len() == 0 {
        return false;
    }
    if s[0] == '/' {
        return false;
    }
    let seps = lit("/");
    proof {
        reveal_strlit("/");
        assert(seps@ =~= seq!['/']);
    }
    let pieces = split_any(s.as_slice(), seps.as_slice());
    proof {
        lemma_split_nonempty(s@, seps@);
    }
    let first = &pieces[0];
    if eq_lit(first.as_slice(), ".") {
        proof {
            reveal_strlit(".");
            assert("."@ =~= dot());
        }
        return false;
    }
    proof {
        reveal_strlit(".");
        assert("."@ =~= dot());
    }
    let mut k: usize = 0;
    while k < pieces.len()
        invariant
            0 <= k <= pieces@.len(),
            s@ == path@,
            pieces@.len() == path_pieces(s@).len(),
            forall|j: int| 0 <= j < pieces@.len() ==> #[trigger] pieces@[j]@ == path_pieces(s@)[j],
            forall|j: int| 0 <= j < k ==> #[trigger] path_pieces(s@)[j] != dot_dot(),
        decreases pieces.len() - k,
    {
        if eq_lit(pieces[k].as_slice(), "..") {
            proof {
                reveal_strlit("..");
                assert(".."@ =~= dot_dot());
                assert(path_pieces(s@)[k as int] == dot_dot());
            }
            return false;
        }
        proof {
            reveal_strlit("..");
            assert(".."@ =~= dot_dot());
        }
        k += 1;
    }
    true
}

/// Whether a stored relative path is safe to join to a root.
pub fn is_safe_relative_path(path: &str) -> (r: bool)
    ensures
        r == safe_relative(path@),
{
    if !is_normal_relative_path(path) {
        return false;
    }
    let s = chars_of(path);
    let seps = lit("/");
    proof {
        reveal_strlit("/");
        assert(seps@ =~= seq!['/']);
    }
    let pieces = split_any(s.as_slice(), seps.as_slice());
    proof {
        lemma_split_nonempty(s@, seps@);
    }
    let first = &pieces[0];
    !(first.len() == 2 && first[1] == ':' && (('a' <= first[0] && first[0] <= 'z') || ('A' <= first[0]
        && first[0] <= 'Z')))
}

/// The components of a path that are neither empty nor `.`.
pub fn meaningful_pieces(s: &[char]) -> (r: Vec<Vec<char>>)
    ensures
        r@.len() == meaningful(path_pieces(s@)).len(),
        forall|k: int| 0 <= k < r@.len() ==> #[trigger] r@[k]@ == meaningful(path_pieces(s@))[k],
{
    let seps = lit("/");
    proof {
        reveal_strlit("/");
        assert(seps@ =~= seq!['/']);
    }
    let pieces = split_any(s, seps.as_slice());
    let ghost all = path_pieces(s@);
    let mut out: Vec<Vec<char>> = Vec::new();
    let mut k: usize = 0;
    proof {
        assert(all.subrange(0, 0) =~= Seq::<Seq<char>>::empty());
    }
    while k < pieces.len()
        invariant
            0 <= k <= pieces@.len(),
            pieces@.len() == all.len(),
            all == path_pieces(s@),
            forall|j: int| 0 <= j < pieces@.len() ==> #[trigger] pieces@[j]@ == all[j],
            out@.len() == meaningful(all.subrange(0, k as int)).len(),
            forall|j: int|
                0 <= j < out@.len() ==> #[trigger] out@[j]@ == meaningful(
                    all.subrange(0, k as int),
                )[j],
        decreases pieces.len() - k,
    {
        let ghost prefix = all.subrange(0, k as int);
        let ghost next = all.subrange(0, k + 1);
        proof {
            assert(next.drop_last() =~= prefix);
            assert(next.last() == all[k as int]);
        }
        let p = &pieces[k];
        let is_dot = eq_lit(p.as_slice(), ".");
        proof {
            reveal_strlit(".");
            assert(".".view() =~= dot());
        }
        if p.len() != 0 && !is_dot {
            let copy = copy_chars(p.as_slice());
            let ghost before = out@;
            out.push(copy);
            proof {
                assert(meaningful(next) == meaningful(prefix).push(all[k as int]));
                assert forall|j: int| 0 <= j < out@.len() implies #[trigger] out@[j]@
                    == meaningful(next)[j] by {
                    if j < out@.len() - 1 {
                        assert(out@[j] == before[j]);
                    }
                }
            }
        } else {
            proof {
                assert(meaningful(next) == meaningful(prefix));
            }
        }
        k += 1;
    }
    proof {
        assert(all.subrange(0, all.len() as int) =~= all);
    }
    out
}

/// `Path::file_name`: the last component unless it is `..`.
pub open spec fn file_name(s: Seq<char>) -> Option<Seq<char>> {
    let comps = meaningful(path_pieces(s));
    if comps.len() == 0 || comps.last() == dot_dot() {
        None
    } else {
        Some(comps.last())
    }
}

/// The position of the last `.` in a name, when it is not the first character.
pub open spec fn has_extension_dot(name: Seq<char>, i: int) -> bool {
    0 < i < name.len() && name[i] == '.' && forall|j: int| i < j < name.len() ==> name[j] != '.'
}

/// `Path::extension` of a file name.
pub open spec fn name_extension(name: Seq<char>) -> Option<Seq<char>> {
    if exists|i: int| has_extension_dot(name, i) {
        let i = choose|i: int| has_extension_dot(name, i);
        Some(name.subrange(i + 1, name.len() as int))
    } else {
        None
    }
}

/// `Path::file_stem` of a file name.
pub open spec fn name_stem(name: Seq<char>) -> Seq<char> {
    if exists|i: int| has_extension_dot(name, i) {
        let i = choose|i: int| has_extension_dot(name, i);
        name.subrange(0, i)
    } else {
        name
    }
}

/// `Path::extension`.
pub open spec fn extension(s: Seq<char>) -> Option<Seq<char>> {
    match file_name(s) {
        Some(name) => name_extension(name),
        None => None,
    }
}

/// `Path::file_stem`.
pub open spec fn file_stem(s: Seq<char>) -> Option<Seq<char>> {
    match file_name(s) {
        Some(name) => Some(name_stem(name)),
        None => None,
    }
}

proof fn lemma_extension_dot_unique(name: Seq<char>, i: int, j: int)
    requires
        has_extension_dot(name, i),
        has_extension_dot(name, j),
    ensures
        i == j,
{
    if i < j {
        assert(name[j] != '.');
    } else if j < i {
        assert(name[i] != '.');
    }
}

/// The position of the dot that starts the extension of a name.
pub fn extension_dot(name: &[char]) -> (r: Option<usize>)
    ensures
        match r {
            Some(i) => has_extension_dot(name@, i as int),
            None => !exists|i: int| has_extension_dot(name@, i),
        },
{
    let mut i: usize = name.len();
    while i > 0
        invariant
            i <= name@.len(),
            forall|j: int| i <= j < name@.len() ==> name@[j] != '.',
        decreases i,
    {
        if name[i - 1] == '.' {
            if i - 1 == 0 {
                assert forall|k: int| !has_extension_dot(name@, k) by {
                    if 0 < k < name@.len() && name@[k] == '.' {
                        assert(k >= i);
                    }
                }
                return None;
            }
            return Some(i - 1);
        }
        i -= 1;
    }
    assert forall|k: int| !has_extension_dot(name@, k) by {
        if 0 < k < name@.len() {
            assert(k >= i);
        }
    }
    None
}

/// `Path::file_name` of a text path.
pub fn path_file_name(s: &[char]) -> (r: Option<Vec<char>>)
    ensures
        match r {
            Some(v) => file_name(s@) == Some(v@),
            None => file_name(s@) is None,
        },
{
    let comps = meaningful_pieces(s);
    if comps.len() == 0 {
        return None;
    }
    let last = &comps[comps.len() - 1];
    proof {
        assert(last@ == meaningful(path_pieces(s@)).last());
    }
    if eq_lit(last.as_slice(), "..") {
        proof {
            reveal_strlit("..");
            assert(".."@ =~= dot_dot());
        }
        return None;
    }
    proof {
        reveal_strlit("..");
        assert(".."@ =~= dot_dot());
    }
    Some(copy_chars(last.as_slice()))
}

/// `Path::extension` of a file name.
pub fn name_extension_of(name: &[char]) -> (r: Option<Vec<char>>)
    ensures
        match r {
            Some(v) => name_extension(name@) == Some(v@),
            None => name_extension(name@) is None,
        },
{
    match extension_dot(name) {
        Some(i) => {
            proof {
                let k = choose|k: int| has_extension_dot(name@, k);
                lemma_extension_dot_unique(name@, i as int, k);
            }
            assert(i < name.len());
            Some(slice_chars(name, i + 1, name.len()))
        },
        None => None,
    }
}

/// `Path::file_stem` of a file name.
pub fn name_stem_of(name: &[char]) -> (r: Vec<char>)
    ensures
        r@ == name_stem(name@),
{
    match extension_dot(name) {
        Some(i) => {
            proof {
                let k = choose|k: int| has_extension_dot(name@, k);
                lemma_extension_dot_unique(name@, i as int, k);
            }
            slice_chars(name, 0, i)
        },
        None => copy_chars(name),
    }
}

/// `Path::extension` of a text path.
pub fn path_extension(s: &[char]) -> (r: Option<Vec<char>>)
    ensures
        match r {
            Some(v) => extension(s@) == Some(v@),
            None => extension(s@) is None,
        },
{
    match path_file_name(s) {
        Some(name) => name_extension_of(name.as_slice()),
        None => None,
    }
}

/// `Path::file_stem` of a text path.
pub fn path_file_stem(s: &[char]) -> (r: Option<Vec<char>>)
    ensures
        match r {
            Some(v) => file_stem(s@) == Some(v@),
            None => file_stem(s@) is None,
        },
{
    match path_file_name(s) {
        Some(name) => Some(name_stem_of(name.as_slice())),
        None => None,
    }
}

/// The extension of a path in ASCII lower case, or empty when there is none
/// (`extension().and_then(to_str).unwrap_or("").to_ascii_lowercase()`).
pub open spec fn lower_extension(s: Seq<char>) -> Seq<char> {
    match extension(s) {
        Some(e) => ascii_lowercase(e),
        None => Seq::empty(),
    }
}

pub fn lower_extension_of(s: &[char]) -> (r: Vec<char>)
    ensures
        r@ == lower_extension(s@),
{
    match path_extension(s) {
        Some(e) => to_ascii_lowercase(e.as_slice()),
        None => Vec::new(),
    }
}

/// The file name of a path in ASCII lower case, or empty when there is none.
pub open spec fn lower_file_name(s: Seq<char>) -> Seq<char> {
    match file_name(s) {
        Some(n) => ascii_lowercase(n),
        None => Seq::empty(),
    }
}

pub fn lower_file_name_of(s: &[char]) -> (r: Vec<char>)
    ensures
        r@ == lower_file_name(s@),
{
    match path_file_name(s) {
        Some(n) => to_ascii_lowercase(n.as_slice()),
        None => Vec::new(),
    }
}

} // verus!
