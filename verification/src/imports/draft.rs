//! The draft of a project that an import proposes: tallies of the material,
//! the deterministic fallback analysis, and how a draft from the agent
//! replaces it.

use vstd::prelude::*;

use crate::imports::agent::{AgentImportResult, AgentNormalizedResources};
use crate::imports::classify::{
    infer_category, kind_label, law_category_order, spec_infer_category, spec_kind_label, AI_WORDS,
    HARDWARE_WORDS, MEDIA_WORDS, RESEARCH_WORDS,
};
use crate::imports::fields::{
    explicit_field, explicit_tags, spec_explicit_field, spec_explicit_tags,
};
use crate::imports::names::{slugify, spec_slugify, on_boundary, strictly_sorted};
use crate::projects::{opt_view, strings_view};
use crate::text::{
    chars_lt, chars_of, chars_eq, decimal, join, join_strings, lex_lt, lemma_lex_asymmetric,
    lemma_lex_irreflexive, lemma_lex_total, lemma_lex_transitive, push_all, push_decimal,
    push_str, string_of, to_lowercase, trim, trim_chars, unicode_lowercase, contains_any,
};

verus! {

// ----------------------------------------------------------------------------
// Sorted sets of names
// ----------------------------------------------------------------------------

/// Adds a name to a set of names kept in ascending order (a `BTreeSet`).
pub fn insert_sorted(set: &mut Vec<String>, value: String)
    requires
        strictly_sorted(strings_view(old(set)@)),
    ensures
        strictly_sorted(strings_view(final(set)@)),
        strings_view(final(set)@).to_set() == strings_view(old(set)@).to_set().insert(value@),
{
    let ghost before = strings_view(set@);
    let v = chars_of(value.as_str());
    let mut i: usize = 0;
    while i < set.len()
        invariant
            0 <= i <= set@.len(),
            before == strings_view(set@),
            strictly_sorted(before),
            v@ == value@,
            forall|j: int| 0 <= j < i ==> lex_lt(#[trigger] before[j], value@),
        ensures
            0 <= i <= set@.len(),
            forall|j: int| 0 <= j < i ==> lex_lt(#[trigger] before[j], value@),
            i < set@.len() ==> !lex_lt(before[i as int], value@),
        decreases set.len() - i,
    {
        let s = chars_of(set[i].as_str());
        assert(before[i as int] == set@[i as int]@);
        if !chars_lt(s.as_slice(), v.as_slice()) {
            break;
        }
        i += 1;
    }
    if i < set.len() {
        let s = chars_of(set[i].as_str());
        if chars_eq(s.as_slice(), v.as_slice()) {
            proof {
                assert(before[i as int] == value@);
                assert(before.to_set().insert(value@) =~= before.to_set());
            }
            return;
        }
    }
    proof {
        if i < set@.len() {
            assert(before[i as int] == set@[i as int]@);
            lemma_lex_total(before[i as int], value@);
            assert(lex_lt(value@, before[i as int]));
        }
    }
    set.insert(i, value);
    let ghost after = strings_view(set@);
    proof {
        assert(after =~= before.insert(i as int, value@));
        assert forall|a: int, b: int| 0 <= a < b < after.len() implies lex_lt(
            #[trigger] after[a],
            #[trigger] after[b],
        ) by {
            if b < i {
            } else if a < i && b == i {
            } else if a < i && b > i {
                assert(lex_lt(value@, before[b - 1])) by {
                    if b - 1 > i {
                        lemma_lex_transitive(value@, before[i as int], before[b - 1]);
                    }
                }
                lemma_lex_transitive(before[a], value@, before[b - 1]);
            } else if a == i {
                if b - 1 > i {
                    lemma_lex_transitive(value@, before[i as int], before[b - 1]);
                }
            } else {
                assert(after[a] == before[a - 1]);
                assert(after[b] == before[b - 1]);
            }
        }
        assert(after.to_set() =~= before.to_set().insert(value@)) by {
            assert forall|x: Seq<char>| after.to_set().contains(x) implies before.to_set().insert(
                value@,
            ).contains(x) by {
                let k = choose|k: int| 0 <= k < after.len() && after[k] == x;
                if k < i {
                    assert(before[k] == x);
                } else if k > i {
                    assert(before[k - 1] == x);
                }
            }
            assert forall|x: Seq<char>| before.to_set().insert(value@).contains(x) implies after.to_set().contains(
                x,
            ) by {
                if x == value@ {
                    assert(after[i as int] == x);
                } else {
                    let k = choose|k: int| 0 <= k < before.len() && before[k] == x;
                    if k < i {
                        assert(after[k] == x);
                    } else {
                        assert(after[k + 1] == x);
                    }
                }
            }
        }
    }
}

// ----------------------------------------------------------------------------
// Tallies of the material
// ----------------------------------------------------------------------------

/// A file of the material, as indexed.
#[derive(Clone, Debug)]
pub struct ArtifactRecord {
    pub relative_path: String,
    pub artifact_kind: String,
    pub mime_type: Option<String>,
    pub size_bytes: u64,
    pub extractor: String,
    pub metadata_json: String,
    pub text_excerpt: Option<String>,
    pub is_cover_candidate: bool,
}

/// How many files of a kind, and how many bytes they hold.
#[derive(Clone, Debug)]
pub struct ArtifactSummary {
    pub kind: String,
    pub count: usize,
    pub total_bytes: u64,
}

/// Files in ascending order of their paths.
pub open spec fn paths_sorted(s: Seq<ArtifactRecord>) -> bool {
    forall|i: int, j: int|
        0 <= i < j < s.len() ==> !lex_lt(#[trigger] s[j].relative_path@, #[trigger] s[i].relative_path@)
}

/// Whether a file has the path `p`.
pub open spec fn has_path(p: Seq<char>) -> spec_fn(ArtifactRecord) -> bool {
    |a: ArtifactRecord| a.relative_path@ == p
}

/// The files of a sequence with the path `p`, in their order.
pub open spec fn with_path(s: Seq<ArtifactRecord>, p: Seq<char>) -> Seq<ArtifactRecord> {
    s.filter(has_path(p))
}

/// A sequence of files whose paths all differ from `p` holds none with it.
proof fn lemma_none_with_path(s: Seq<ArtifactRecord>, p: Seq<char>)
    requires
        forall|j: int| 0 <= j < s.len() ==> (#[trigger] s[j]).relative_path@ != p,
    ensures
        with_path(s, p) =~= Seq::<ArtifactRecord>::empty(),
{
    let f = with_path(s, p);
    if f.len() > 0 {
        s.lemma_filter_pred(has_path(p), 0);
        s.lemma_filter_contains_rev(has_path(p), f[0]);
        let j = choose|j: int| 0 <= j < s.len() && s[j] == f[0];
        assert(s[j].relative_path@ != p);
    }
}

/// Placing a file after every file whose path is not above its own keeps,
/// for each path, the files with that path in their order, the new one last.
proof fn lemma_insert_by_path(out: Seq<ArtifactRecord>, pos: int, x: ArtifactRecord, p: Seq<char>)
    requires
        0 <= pos <= out.len(),
        forall|j: int| pos <= j < out.len() ==> lex_lt(x.relative_path@, (#[trigger] out[j]).relative_path@),
    ensures
        with_path(out.insert(pos, x), p) == if x.relative_path@ == p {
            with_path(out, p).push(x)
        } else {
            with_path(out, p)
        },
{
    let f = has_path(p);
    let a = out.take(pos);
    let b = out.skip(pos);
    assert(out =~= a + b);
    assert(out.insert(pos, x) =~= (a + seq![x]) + b);
    Seq::filter_distributes_over_add(a, b, f);
    Seq::filter_distributes_over_add(a + seq![x], b, f);
    a.lemma_filter_push(x, f);
    assert(a + seq![x] =~= a.push(x));
    if x.relative_path@ == p {
        assert forall|j: int| 0 <= j < b.len() implies (#[trigger] b[j]).relative_path@ != p by {
            assert(b[j] == out[pos + j]);
            lemma_lex_irreflexive(p);
        }
        lemma_none_with_path(b, p);
        assert(with_path(out, p) =~= with_path(a, p));
        assert(with_path(out.insert(pos, x), p) =~= with_path(a, p).push(x));
    } else {
        assert(with_path(out.insert(pos, x), p) =~= with_path(out, p));
    }
}

/// Whether a file's path comes after `x`.
fn path_after(x: &[char], a: &ArtifactRecord) -> (r: bool)
    ensures
        r == lex_lt(x@, a.relative_path@),
{
    let p = chars_of(a.relative_path.as_str());
    chars_lt(x, p.as_slice())
}

/// The files in ascending order of their paths; files with the same path
/// keep their order (a stable sort).
pub fn sort_artifacts(artifacts: Vec<ArtifactRecord>) -> (r: Vec<ArtifactRecord>)
    ensures
        paths_sorted(r@),
        forall|p: Seq<char>| #[trigger] with_path(r@, p) == with_path(artifacts@, p),
{
    let ghost all = artifacts@;
    let mut sorted: Vec<ArtifactRecord> = Vec::new();
    let mut rest = artifacts;
    proof {
        assert(all.take(0) =~= Seq::<ArtifactRecord>::empty());
        assert(all.skip(0) =~= all);
        assert forall|p: Seq<char>| #[trigger] with_path(sorted@, p) == with_path(all.take(0), p) by {
            reveal(Seq::filter);
            assert(sorted@ =~= Seq::<ArtifactRecord>::empty());
        }
    }
    while rest.len() > 0
        invariant
            rest@.len() <= all.len(),
            rest@ == all.skip(all.len() - rest@.len()),
            paths_sorted(sorted@),
            forall|p: Seq<char>| #[trigger] with_path(sorted@, p) == with_path(
                all.take(all.len() - rest@.len()),
                p,
            ),
        decreases rest.len(),
    {
        let ghost i = all.len() - rest@.len();
        let x = rest.remove(0);
        proof {
            assert(x == all[i]);
            assert(rest@ =~= all.skip(i + 1));
            assert(all.take(i + 1) =~= all.take(i).push(x));
        }
        let xp = chars_of(x.relative_path.as_str());
        let mut pos: usize = 0;
        loop
            invariant
                0 <= pos <= sorted@.len(),
                xp@ == x.relative_path@,
                forall|j: int| 0 <= j < pos ==> !lex_lt(xp@, (#[trigger] sorted@[j]).relative_path@),
            ensures
                0 <= pos <= sorted@.len(),
                forall|j: int| 0 <= j < pos ==> !lex_lt(xp@, (#[trigger] sorted@[j]).relative_path@),
                pos < sorted@.len() ==> lex_lt(xp@, sorted@[pos as int].relative_path@),
            decreases sorted.len() - pos,
        {
            if pos >= sorted.len() {
                break;
            }
            if path_after(xp.as_slice(), &sorted[pos]) {
                break;
            }
            pos += 1;
        }
        let ghost before = sorted@;
        proof {
            assert forall|j: int| pos <= j < before.len() implies lex_lt(
                x.relative_path@,
                (#[trigger] before[j]).relative_path@,
            ) by {
                if j > pos {
                    let a = before[pos as int].relative_path@;
                    let c = before[j].relative_path@;
                    assert(!lex_lt(c, a));
                    lemma_lex_total(a, c);
                    if a != c {
                        lemma_lex_transitive(x.relative_path@, a, c);
                    }
                }
            }
        }
        sorted.insert(pos, x);
        proof {
            let ghost taken = all.take(i);
            assert forall|p: Seq<char>| #[trigger] with_path(sorted@, p) == with_path(all.take(i + 1), p) by {
                lemma_insert_by_path(before, pos as int, x, p);
                taken.lemma_filter_push(x, has_path(p));
            }
            assert forall|a: int, b: int| 0 <= a < b < sorted@.len() implies !lex_lt(
                #[trigger] sorted@[b].relative_path@,
                #[trigger] sorted@[a].relative_path@,
            ) by {
                let xr = x.relative_path@;
                if a < pos && b == pos {
                    assert(sorted@[a] == before[a]);
                } else if a == pos {
                    assert(sorted@[b] == before[b - 1]);
                    lemma_lex_asymmetric(xr, before[b - 1].relative_path@);
                } else if a < pos && b > pos {
                    assert(sorted@[a] == before[a]);
                    assert(sorted@[b] == before[b - 1]);
                } else if b < pos {
                    assert(sorted@[a] == before[a]);
                    assert(sorted@[b] == before[b]);
                } else {
                    assert(sorted@[a] == before[a - 1]);
                    assert(sorted@[b] == before[b - 1]);
                }
            }
        }
    }
    proof {
        assert(all.take(all.len() as int) =~= all);
    }
    sorted
}

/// The number of files of a kind.
pub open spec fn kind_count(arts: Seq<ArtifactRecord>, kind: Seq<char>) -> nat
    decreases arts.len(),
{
    if arts.len() == 0 {
        0
    } else {
        kind_count(arts.drop_last(), kind) + if arts.last().artifact_kind@ == kind {
            1nat
        } else {
            0nat
        }
    }
}

/// The bytes of the files of a kind.
pub open spec fn kind_bytes(arts: Seq<ArtifactRecord>, kind: Seq<char>) -> nat
    decreases arts.len(),
{
    if arts.len() == 0 {
        0
    } else {
        kind_bytes(arts.drop_last(), kind) + if arts.last().artifact_kind@ == kind {
            arts.last().size_bytes as nat
        } else {
            0nat
        }
    }
}

/// The bytes of all files.
pub open spec fn all_bytes(arts: Seq<ArtifactRecord>) -> nat
    decreases arts.len(),
{
    if arts.len() == 0 {
        0
    } else {
        all_bytes(arts.drop_last()) + arts.last().size_bytes as nat
    }
}

pub open spec fn summary_kinds(sum: Seq<ArtifactSummary>) -> Seq<Seq<char>> {
    sum.map_values(|a: ArtifactSummary| a.kind@)
}

pub open spec fn artifact_kinds(arts: Seq<ArtifactRecord>) -> Seq<Seq<char>> {
    arts.map_values(|a: ArtifactRecord| a.artifact_kind@)
}

/// `sum` tallies `arts`: one entry per kind that occurs, in ascending order
/// of kind, each with the number and the bytes of its files.
pub open spec fn tallies(sum: Seq<ArtifactSummary>, arts: Seq<ArtifactRecord>) -> bool {
    &&& strictly_sorted(summary_kinds(sum))
    &&& summary_kinds(sum).to_set() == artifact_kinds(arts).to_set()
    &&& forall|k: int|
        0 <= k < sum.len() ==> (#[trigger] sum[k]).count == kind_count(arts, sum[k].kind@)
            && sum[k].total_bytes == kind_bytes(arts, sum[k].kind@)
}

proof fn lemma_kind_bounds(arts: Seq<ArtifactRecord>, kind: Seq<char>)
    ensures
        kind_count(arts, kind) <= arts.len(),
        kind_bytes(arts, kind) <= all_bytes(arts),
    decreases arts.len(),
{
    if arts.len() > 0 {
        lemma_kind_bounds(arts.drop_last(), kind);
    }
}

proof fn lemma_all_bytes_prefix(arts: Seq<ArtifactRecord>, i: int)
    requires
        0 <= i <= arts.len(),
    ensures
        all_bytes(arts.subrange(0, i)) <= all_bytes(arts),
    decreases arts.len() - i,
{
    if i < arts.len() {
        lemma_all_bytes_prefix(arts, i + 1);
        assert(arts.subrange(0, i + 1).drop_last() =~= arts.subrange(0, i));
    } else {
        assert(arts.subrange(0, i) =~= arts);
    }
}

/// Tallies the files by kind, in ascending order of kind (a `BTreeMap`).
pub fn artifact_totals(artifacts: &[ArtifactRecord]) -> (r: Vec<ArtifactSummary>)
    requires
        all_bytes(artifacts@) <= u64::MAX,
    ensures
        tallies(r@, artifacts@),
{
    let mut totals: Vec<ArtifactSummary> = Vec::new();
    let mut i: usize = 0;
    proof {
        assert(artifacts@.subrange(0, 0) =~= Seq::<ArtifactRecord>::empty());
        assert(summary_kinds(totals@).to_set() =~= artifact_kinds(artifacts@.subrange(0, 0)).to_set());
    }
    while i < artifacts.len()
        invariant
            0 <= i <= artifacts@.len(),
            all_bytes(artifacts@) <= u64::MAX,
            tallies(totals@, artifacts@.subrange(0, i as int)),
        decreases artifacts.len() - i,
    {
        let ghost prefix = artifacts@.subrange(0, i as int);
        let ghost next = artifacts@.subrange(0, i + 1);
        let ghost old_totals = totals@;
        let a = &artifacts[i];
        proof {
            assert(next.drop_last() =~= prefix);
            assert(next.last() == *a);
            lemma_all_bytes_prefix(artifacts@, i + 1);
            lemma_kind_bounds(next, a.artifact_kind@);
            assert(artifact_kinds(next) =~= artifact_kinds(prefix).push(a.artifact_kind@));
            lemma_push_to_set(artifact_kinds(prefix), a.artifact_kind@);
        }
        let kind = chars_of(a.artifact_kind.as_str());
        let mut k: usize = 0;
        while k < totals.len()
            invariant
                0 <= k <= totals@.len(),
                totals@ == old_totals,
                kind@ == a.artifact_kind@,
                forall|j: int| 0 <= j < k ==> (#[trigger] totals@[j]).kind@ != kind@,
            ensures
                0 <= k <= totals@.len(),
                forall|j: int| 0 <= j < k ==> (#[trigger] totals@[j]).kind@ != kind@,
                k < totals@.len() ==> totals@[k as int].kind@ == kind@,
            decreases totals.len() - k,
        {
            let t = chars_of(totals[k].kind.as_str());
            if chars_eq(t.as_slice(), kind.as_slice()) {
                break;
            }
            k += 1;
        }
        if k < totals.len() {
            let count = totals[k].count;
            let bytes = totals[k].total_bytes;
            proof {
                assert(count == kind_count(prefix, kind@));
                assert(bytes == kind_bytes(prefix, kind@));
            }
            let entry = ArtifactSummary {
                kind: totals[k].kind.clone(),
                count: count + 1,
                total_bytes: bytes + a.size_bytes,
            };
            totals.set(k, entry);
            proof {
                assert(summary_kinds(totals@) =~= summary_kinds(old_totals));
                assert(artifact_kinds(prefix).to_set().insert(a.artifact_kind@) =~= artifact_kinds(
                    prefix,
                ).to_set()) by {
                    assert(summary_kinds(old_totals)[k as int] == a.artifact_kind@);
                    assert(summary_kinds(old_totals).to_set().contains(a.artifact_kind@));
                }
                assert(artifact_kinds(next).to_set() =~= artifact_kinds(prefix).to_set().insert(
                    a.artifact_kind@,
                ));
                assert forall|j: int| 0 <= j < totals@.len() implies (#[trigger] totals@[j]).count
                    == kind_count(next, totals@[j].kind@) && totals@[j].total_bytes == kind_bytes(
                    next,
                    totals@[j].kind@,
                ) by {
                    if j != k {
                        assert(totals@[j] == old_totals[j]);
                        if j > k {
                            assert(lex_lt(summary_kinds(old_totals)[k as int], summary_kinds(old_totals)[j]));
                            if old_totals[j].kind@ == kind@ {
                                lemma_lex_irreflexive(kind@);
                            }
                        }
                        assert(old_totals[j].kind@ != a.artifact_kind@);
                    } else {
                        assert(totals@[j].kind@ == a.artifact_kind@);
                    }
                }
            }
        } else {
            let entry = ArtifactSummary {
                kind: a.artifact_kind.clone(),
                count: 1,
                total_bytes: a.size_bytes,
            };
            let mut p: usize = 0;
            while p < totals.len()
                invariant
                    0 <= p <= totals@.len(),
                    totals@ == old_totals,
                    kind@ == a.artifact_kind@,
                    strictly_sorted(summary_kinds(old_totals)),
                    forall|j: int| 0 <= j < p ==> lex_lt(#[trigger] old_totals[j].kind@, kind@),
                ensures
                    0 <= p <= totals@.len(),
                    forall|j: int| 0 <= j < p ==> lex_lt(#[trigger] old_totals[j].kind@, kind@),
                    p < totals@.len() ==> !lex_lt(old_totals[p as int].kind@, kind@),
                decreases totals.len() - p,
            {
                let t = chars_of(totals[p].kind.as_str());
                if !chars_lt(t.as_slice(), kind.as_slice()) {
                    break;
                }
                p += 1;
            }
            proof {
                if p < old_totals.len() {
                    lemma_lex_total(old_totals[p as int].kind@, kind@);
                    assert(old_totals[p as int].kind@ != kind@);
                    assert(lex_lt(kind@, old_totals[p as int].kind@));
                }
                assert forall|j: int| 0 <= j < old_totals.len() implies (#[trigger] old_totals[j]).kind@
                    != a.artifact_kind@ by {
                    assert(old_totals[j].kind@ != kind@);
                }
            }
            totals.insert(p, entry);
            proof {
                let before = summary_kinds(old_totals);
                let after = summary_kinds(totals@);
                assert(after =~= before.insert(p as int, kind@));
                assert forall|x: int, y: int| 0 <= x < y < after.len() implies lex_lt(
                    #[trigger] after[x],
                    #[trigger] after[y],
                ) by {
                    if y < p {
                    } else if x < p && y == p {
                    } else if x < p && y > p {
                        if y - 1 > p {
                            lemma_lex_transitive(kind@, before[p as int], before[y - 1]);
                        }
                        lemma_lex_transitive(before[x], kind@, before[y - 1]);
                    } else if x == p {
                        if y - 1 > p {
                            lemma_lex_transitive(kind@, before[p as int], before[y - 1]);
                        }
                    } else {
                        assert(after[x] == before[x - 1]);
                        assert(after[y] == before[y - 1]);
                    }
                }
                assert(after.to_set() =~= before.to_set().insert(kind@)) by {
                    assert forall|z: Seq<char>| after.to_set().contains(z) implies before.to_set().insert(
                        kind@,
                    ).contains(z) by {
                        let m = choose|m: int| 0 <= m < after.len() && after[m] == z;
                        if m < p {
                            assert(before[m] == z);
                        } else if m > p {
                            assert(before[m - 1] == z);
                        }
                    }
                    assert forall|z: Seq<char>| before.to_set().insert(kind@).contains(z) implies after.to_set().contains(
                        z,
                    ) by {
                        if z == kind@ {
                            assert(after[p as int] == z);
                        } else {
                            let m = choose|m: int| 0 <= m < before.len() && before[m] == z;
                            if m < p {
                                assert(after[m] == z);
                            } else {
                                assert(after[m + 1] == z);
                            }
                        }
                    }
                }
                assert(artifact_kinds(next).to_set() =~= artifact_kinds(prefix).to_set().insert(
                    a.artifact_kind@,
                ));
                assert(!summary_kinds(old_totals).to_set().contains(kind@)) by {
                    if summary_kinds(old_totals).to_set().contains(kind@) {
                        let m = choose|m: int| 0 <= m < before.len() && before[m] == kind@;
                        assert(old_totals[m].kind@ == kind@);
                    }
                }
                assert(!artifact_kinds(prefix).to_set().contains(kind@));
                assert(kind_count(prefix, kind@) == 0) by {
                    lemma_absent_kind(prefix, kind@);
                }
                assert forall|j: int| 0 <= j < totals@.len() implies (#[trigger] totals@[j]).count
                    == kind_count(next, totals@[j].kind@) && totals@[j].total_bytes == kind_bytes(
                    next,
                    totals@[j].kind@,
                ) by {
                    if j < p {
                        assert(totals@[j] == old_totals[j]);
                    } else if j > p {
                        assert(totals@[j] == old_totals[j - 1]);
                    } else {
                        lemma_absent_kind(prefix, kind@);
                    }
                }
            }
        }
        i += 1;
    }
    proof {
        assert(artifacts@.subrange(0, artifacts@.len() as int) =~= artifacts@);
    }
    totals
}

proof fn lemma_push_to_set(s: Seq<Seq<char>>, x: Seq<char>)
    ensures
        s.push(x).to_set() == s.to_set().insert(x),
{
    assert forall|z: Seq<char>| s.push(x).to_set().contains(z) implies s.to_set().insert(x).contains(
        z,
    ) by {
        let m = choose|m: int| 0 <= m < s.len() + 1 && s.push(x)[m] == z;
        if m < s.len() {
            assert(s[m] == z);
        }
    }
    assert forall|z: Seq<char>| s.to_set().insert(x).contains(z) implies s.push(x).to_set().contains(
        z,
    ) by {
        if z == x {
            assert(s.push(x)[s.len() as int] == z);
        } else {
            let m = choose|m: int| 0 <= m < s.len() && s[m] == z;
            assert(s.push(x)[m] == z);
        }
    }
    assert(s.push(x).to_set() =~= s.to_set().insert(x));
}

proof fn lemma_absent_kind(arts: Seq<ArtifactRecord>, kind: Seq<char>)
    requires
        !artifact_kinds(arts).to_set().contains(kind),
    ensures
        kind_count(arts, kind) == 0,
        kind_bytes(arts, kind) == 0,
    decreases arts.len(),
{
    if arts.len() > 0 {
        assert(artifact_kinds(arts.drop_last()) =~= artifact_kinds(arts).drop_last());
        assert(!artifact_kinds(arts.drop_last()).to_set().contains(kind)) by {
            if artifact_kinds(arts.drop_last()).to_set().contains(kind) {
                let m = choose|m: int| 0 <= m < arts.len() - 1 && artifact_kinds(arts.drop_last())[m] == kind;
                assert(artifact_kinds(arts)[m] == kind);
            }
        }
        assert(artifact_kinds(arts)[arts.len() - 1] == arts.last().artifact_kind@);
        lemma_absent_kind(arts.drop_last(), kind);
    }
}

// ----------------------------------------------------------------------------
// The summary sentence
// ----------------------------------------------------------------------------

/// `N 个<label>` for each kind with files, in order.
pub open spec fn summary_parts(sum: Seq<ArtifactSummary>) -> Seq<Seq<char>>
    decreases sum.len(),
{
    if sum.len() == 0 {
        Seq::empty()
    } else if sum.last().count > 0 {
        summary_parts(sum.drop_last()).push(
            decimal(sum.last().count as nat) + " 个"@ + spec_kind_label(sum.last().kind@)@,
        )
    } else {
        summary_parts(sum.drop_last())
    }
}

pub open spec fn spec_summary_sentence(sum: Seq<ArtifactSummary>) -> Seq<char> {
    if sum.len() == 0 {
        "已收集项目简介与链接，等待进一步理解与确认。"@
    } else {
        "项目材料中识别到"@ + join(summary_parts(sum), "、"@) + "，等待进一步理解与确认。"@
    }
}

/// The summary of a draft: what the material holds, kind by kind.
pub fn summary_sentence(summary: &[ArtifactSummary]) -> (r: String)
    ensures
        r@ == spec_summary_sentence(summary@),
{
    if summary.len() == 0 {
        return String::from_str("已收集项目简介与链接，等待进一步理解与确认。");
    }
    let mut parts: Vec<String> = Vec::new();
    let mut i: usize = 0;
    proof {
        assert(summary@.subrange(0, 0) =~= Seq::<ArtifactSummary>::empty());
    }
    while i < summary.len()
        invariant
            0 <= i <= summary@.len(),
            strings_view(parts@) == summary_parts(summary@.subrange(0, i as int)),
        decreases summary.len() - i,
    {
        proof {
            let next = summary@.subrange(0, i + 1);
            assert(next.drop_last() =~= summary@.subrange(0, i as int));
            assert(next.last() == summary@[i as int]);
        }
        let item = &summary[i];
        if item.count > 0 {
            let mut part: Vec<char> = Vec::new();
            push_decimal(&mut part, item.count as u64);
            push_str(&mut part, " 个");
            let kind = chars_of(item.kind.as_str());
            push_str(&mut part, kind_label(kind.as_slice()));
            let ghost before = parts@;
            parts.push(string_of(part.as_slice()));
            proof {
                assert(part@ =~= decimal(item.count as nat) + " 个"@ + spec_kind_label(item.kind@)@);
                assert(strings_view(parts@) =~= strings_view(before).push(part@));
            }
        }
        i += 1;
    }
    proof {
        assert(summary@.subrange(0, summary@.len() as int) =~= summary@);
        assert(strings_view(parts@) =~= parts@.map_values(|s: String| s@));
    }
    let joined = join_strings(&parts, "、");
    let mut out = crate::text::lit("项目材料中识别到");
    push_str(&mut out, joined.as_str());
    push_str(&mut out, "，等待进一步理解与确认。");
    string_of(out.as_slice())
}

// ----------------------------------------------------------------------------
// The context of a job
// ----------------------------------------------------------------------------

/// A link that a member adds to an import.
#[derive(Clone, Debug)]
pub struct LinkInput {
    pub url: String,
    pub title: Option<String>,
}

/// `- <url>` and a line break for each link.
pub open spec fn link_lines(links: Seq<LinkInput>) -> Seq<char>
    decreases links.len(),
{
    if links.len() == 0 {
        Seq::empty()
    } else {
        link_lines(links.drop_last()) + "- "@ + links.last().url@ + "\n"@
    }
}

/// The text that a job starts from: the member's project text and links.
pub open spec fn spec_import_context(prompt: Seq<char>, links: Seq<LinkInput>) -> Seq<char> {
    let t = trim(prompt);
    let a = if t.len() > 0 {
        "用户提供的项目简介：\n"@ + t
    } else {
        Seq::empty()
    };
    if links.len() == 0 {
        a
    } else {
        (if a.len() > 0 {
            a + "\n\n"@
        } else {
            a
        }) + "用户提供的项目链接：\n"@ + link_lines(links)
    }
}

pub fn import_context(prompt: &str, links: &[LinkInput]) -> (r: String)
    ensures
        r@ == spec_import_context(prompt@, links@),
{
    let p = chars_of(prompt);
    let t = trim_chars(p.as_slice());
    let mut out: Vec<char> = Vec::new();
    if t.len() > 0 {
        push_str(&mut out, "用户提供的项目简介：\n");
        push_all(&mut out, t.as_slice());
    }
    if links.len() > 0 {
        if out.len() > 0 {
            push_str(&mut out, "\n\n");
        }
        push_str(&mut out, "用户提供的项目链接：\n");
        let ghost head = out@;
        let mut i: usize = 0;
        proof {
            assert(links@.subrange(0, 0) =~= Seq::<LinkInput>::empty());
            assert(out@ =~= head + link_lines(links@.subrange(0, 0)));
        }
        while i < links.len()
            invariant
                0 <= i <= links@.len(),
                out@ == head + link_lines(links@.subrange(0, i as int)),
            decreases links.len() - i,
        {
            proof {
                let next = links@.subrange(0, i + 1);
                assert(next.drop_last() =~= links@.subrange(0, i as int));
                assert(next.last() == links@[i as int]);
            }
            push_str(&mut out, "- ");
            push_str(&mut out, links[i].url.as_str());
            push_str(&mut out, "\n");
            proof {
                assert(out@ =~= head + link_lines(links@.subrange(0, i + 1)));
            }
            i += 1;
        }
        proof {
            assert(links@.subrange(0, links@.len() as int) =~= links@);
        }
    }
    string_of(out.as_slice())
}

/// The most text that the material adds to the corpus, in bytes.
pub const MAX_TEXT_CORPUS_BYTES: usize = 524288;

/// Adds the text extracted from a file to the corpus, under a heading with
/// its path: nothing once the corpus holds 512 KiB, else at most as many
/// characters as bytes are left, and never more than 32 Ki.
pub fn append_extracted_preview(label: &str, text: &str, corpus: &mut String)
    ensures
        final(corpus)@ == (if crate::text::utf8_len(old(corpus)@) >= MAX_TEXT_CORPUS_BYTES {
            old(corpus)@
        } else {
            old(corpus)@ + "\n--- "@ + label@ + " ---\n"@ + crate::text::take(
                text@,
                if MAX_TEXT_CORPUS_BYTES - crate::text::utf8_len(old(corpus)@) < 32768 {
                    MAX_TEXT_CORPUS_BYTES - crate::text::utf8_len(old(corpus)@)
                } else {
                    32768
                },
            )
        }),
{
    let c = chars_of(corpus.as_str());
    let used = crate::text::utf8_len_of(c.as_slice());
    if used >= MAX_TEXT_CORPUS_BYTES {
        return;
    }
    let left = MAX_TEXT_CORPUS_BYTES - used;
    let remaining = if left < 32768 {
        left
    } else {
        32768
    };
    let mut out = c;
    push_str(&mut out, "\n--- ");
    push_str(&mut out, label);
    push_str(&mut out, " ---\n");
    let t = chars_of(text);
    let taken = crate::text::take_chars(t.as_slice(), remaining);
    push_all(&mut out, taken.as_slice());
    *corpus = string_of(out.as_slice());
}

// ----------------------------------------------------------------------------
// The fallback analysis
// ----------------------------------------------------------------------------

/// The project that a draft proposes.
#[derive(Clone, Debug)]
pub struct ImportProjectDraft {
    pub name: String,
    pub slug: String,
    pub summary: String,
    pub primary_category: String,
    pub suggested_tags: Vec<String>,
    pub owner_name: Option<String>,
    pub source_name: Option<String>,
    pub highest_award: Option<String>,
    pub status: String,
}

/// Where the agent stands for a draft.
#[derive(Clone, Debug)]
pub struct AgentState {
    pub status: String,
    pub mode: String,
    pub message: String,
}

/// What the import pipeline can do so far.
#[derive(Clone, Debug)]
pub struct ImportCapabilities {
    pub zip_upload: String,
    pub github_link: String,
    pub mixed_files: String,
    pub codex_agent: String,
    pub github_publish: String,
}

/// The draft of an import with what it was made from.
#[derive(Clone, Debug)]
pub struct ImportAnalysis {
    pub project_draft: ImportProjectDraft,
    pub artifact_summary: Vec<ArtifactSummary>,
    pub normalized_resources: AgentNormalizedResources,
    pub warnings: Vec<String>,
    pub agent: AgentState,
    pub capabilities: ImportCapabilities,
}

/// The files of an import and its draft.
#[derive(Clone, Debug)]
pub struct AnalysisBuild {
    pub artifacts: Vec<ArtifactRecord>,
    pub analysis: ImportAnalysis,
}

pub const OWNER_LABELS: [&'static str; 3] = ["当前负责", "负责人", "维护者"];

pub const SOURCE_LABELS: [&'static str; 3] = ["来源者", "来源方", "来源"];

pub const AWARD_LABELS: [&'static str; 3] = ["最高奖项", "获奖", "奖项"];

pub open spec fn artifact_paths(arts: Seq<ArtifactRecord>) -> Seq<Seq<char>> {
    arts.map_values(|a: ArtifactRecord| a.relative_path@)
}

/// What the category is inferred from: every path, a line break, the corpus.
pub open spec fn searchable_text(arts: Seq<ArtifactRecord>, corpus: Seq<char>) -> Seq<char> {
    join(artifact_paths(arts), "\n"@) + "\n"@ + corpus
}

pub open spec fn fallback_warnings(skipped: Seq<Seq<char>>) -> Seq<Seq<char>> {
    let base = seq![
        "当前使用确定性回退生成草稿；配置 Codex 后将补充语义摘要、奖项识别和更准确的分类。"@,
        "PPT、文档和视频已完成文件级归类，内容抽取器将在 Agent 链路配置阶段接入。"@,
    ];
    if skipped.len() == 0 {
        base
    } else {
        base.push("为控制体积与风险，已跳过生成目录："@ + join(skipped, "、"@) + "。"@)
    }
}

/// `a` is the deterministic draft for the material: the name and its path,
/// tallies and their summary, the category inferred from the lower-cased
/// paths and text, the fields and formal tags the member stated, the
/// standard warnings (and the skipped folders), and the pipeline's state.
pub open spec fn is_fallback_analysis(
    a: ImportAnalysis,
    project_name: Seq<char>,
    job_id: Seq<char>,
    arts: Seq<ArtifactRecord>,
    corpus: Seq<char>,
    skipped: Seq<Seq<char>>,
    prompt: Seq<char>,
) -> bool {
    let d = a.project_draft;
    &&& d.name@ == project_name
    &&& d.slug@ == spec_slugify(project_name, job_id)
    &&& tallies(a.artifact_summary@, arts)
    &&& d.summary@ == spec_summary_sentence(a.artifact_summary@)
    &&& d.primary_category@ == spec_infer_category(
        unicode_lowercase(searchable_text(arts, corpus)),
        kind_count(arts, "code"@),
    )@
    &&& strings_view(d.suggested_tags@) == spec_explicit_tags(prompt)
    &&& opt_view(d.owner_name) == spec_explicit_field(prompt, OWNER_LABELS@)
    &&& opt_view(d.source_name) == spec_explicit_field(prompt, SOURCE_LABELS@)
    &&& opt_view(d.highest_award) == spec_explicit_field(prompt, AWARD_LABELS@)
    &&& d.status@ == "待确认"@
    &&& a.normalized_resources.all().len() == 0
    &&& strings_view(a.warnings@) == fallback_warnings(skipped)
    &&& a.agent.status@ == "awaiting_configuration"@
    &&& a.agent.mode@ == "deterministic_fallback"@
    &&& a.agent.message@ == "材料收集与安全归类链路已打通，等待配置 Codex Base URL 与 API Token。"@
    &&& a.capabilities.zip_upload@ == "prototype_ready"@
    &&& a.capabilities.github_link@ == "input_reserved"@
    &&& a.capabilities.mixed_files@ == "prototype_ready"@
    &&& a.capabilities.codex_agent@ == "awaiting_configuration"@
    &&& a.capabilities.github_publish@ == "awaiting_credentials"@
}

/// A deterministic draft whose material names a hardware word (in its
/// lower-cased paths or text) is classified as smart hardware; one whose
/// material names no word of any category is traditional software.
pub proof fn law_fallback_category(
    a: ImportAnalysis,
    project_name: Seq<char>,
    job_id: Seq<char>,
    arts: Seq<ArtifactRecord>,
    corpus: Seq<char>,
    skipped: Seq<Seq<char>>,
    prompt: Seq<char>,
)
    requires
        is_fallback_analysis(a, project_name, job_id, arts, corpus, skipped, prompt),
    ensures
        contains_any(unicode_lowercase(searchable_text(arts, corpus)), HARDWARE_WORDS@)
            ==> a.project_draft.primary_category@ == "智能硬件"@,
        !contains_any(unicode_lowercase(searchable_text(arts, corpus)), HARDWARE_WORDS@) && !contains_any(
            unicode_lowercase(searchable_text(arts, corpus)),
            MEDIA_WORDS@,
        ) && !contains_any(unicode_lowercase(searchable_text(arts, corpus)), AI_WORDS@) && !contains_any(
            unicode_lowercase(searchable_text(arts, corpus)),
            RESEARCH_WORDS@,
        ) ==> a.project_draft.primary_category@ == "传统软件"@,
{
    law_category_order(unicode_lowercase(searchable_text(arts, corpus)), kind_count(arts, "code"@));
}

fn code_count_of(totals: &Vec<ArtifactSummary>, Ghost(arts): Ghost<Seq<ArtifactRecord>>) -> (r: usize)
    requires
        tallies(totals@, arts),
    ensures
        r == kind_count(arts, "code"@),
{
    let mut k: usize = 0;
    while k < totals.len()
        invariant
            0 <= k <= totals@.len(),
            tallies(totals@, arts),
            forall|j: int| 0 <= j < k ==> (#[trigger] totals@[j]).kind@ != "code"@,
        decreases totals.len() - k,
    {
        let t = chars_of(totals[k].kind.as_str());
        if eq_lit_code(t.as_slice()) {
            return totals[k].count;
        }
        k += 1;
    }
    proof {
        assert(!artifact_kinds(arts).to_set().contains("code"@)) by {
            if artifact_kinds(arts).to_set().contains("code"@) {
                assert(summary_kinds(totals@).to_set().contains("code"@));
                let m = choose|m: int| 0 <= m < totals@.len() && summary_kinds(totals@)[m] == "code"@;
                assert(totals@[m].kind@ == "code"@);
            }
        }
        lemma_absent_kind(arts, "code"@);
    }
    0
}

fn eq_lit_code(t: &[char]) -> (r: bool)
    ensures
        r == (t@ == "code"@),
{
    crate::text::eq_lit(t, "code")
}

/// The deterministic draft of an import (see `is_fallback_analysis`). The
/// skipped folders form a set, kept in ascending order.
pub fn build_fallback_analysis(
    project_name: &str,
    job_id: &str,
    artifacts: &[ArtifactRecord],
    text_corpus: &str,
    skipped_directories: &Vec<String>,
    prompt: &str,
) -> (r: ImportAnalysis)
    requires
        on_boundary(job_id@, 8),
        all_bytes(artifacts@) <= u64::MAX,
        strictly_sorted(strings_view(skipped_directories@)),
    ensures
        is_fallback_analysis(
            r,
            project_name@,
            job_id@,
            artifacts@,
            text_corpus@,
            strings_view(skipped_directories@),
            prompt@,
        ),
{
    let totals = artifact_totals(artifacts);
    let mut paths: Vec<String> = Vec::new();
    let mut i: usize = 0;
    while i < artifacts.len()
        invariant
            0 <= i <= artifacts@.len(),
            strings_view(paths@) == artifact_paths(artifacts@.subrange(0, i as int)),
        decreases artifacts.len() - i,
    {
        let ghost before = paths@;
        paths.push(artifacts[i].relative_path.clone());
        proof {
            assert(artifact_paths(artifacts@.subrange(0, i + 1)) =~= artifact_paths(
                artifacts@.subrange(0, i as int),
            ).push(artifacts@[i as int].relative_path@));
            assert(strings_view(paths@) =~= strings_view(before).push(artifacts@[i as int].relative_path@));
        }
        i += 1;
    }
    proof {
        assert(artifacts@.subrange(0, artifacts@.len() as int) =~= artifacts@);
        assert(strings_view(paths@) =~= paths@.map_values(|s: String| s@));
    }
    let joined = join_strings(&paths, "\n");
    let mut text = chars_of(joined.as_str());
    push_str(&mut text, "\n");
    push_str(&mut text, text_corpus);
    let searchable = to_lowercase(text.as_slice());
    let code_count = code_count_of(&totals, Ghost(artifacts@));
    let primary_category = String::from_str(infer_category(searchable.as_slice(), code_count));
    let suggested_tags = explicit_tags(prompt);
    let owner_name = explicit_field(prompt, &OWNER_LABELS);
    let source_name = explicit_field(prompt, &SOURCE_LABELS);
    let highest_award = explicit_field(prompt, &AWARD_LABELS);
    let summary = summary_sentence(totals.as_slice());
    let mut warnings: Vec<String> = Vec::new();
    warnings.push(
        String::from_str(
            "当前使用确定性回退生成草稿；配置 Codex 后将补充语义摘要、奖项识别和更准确的分类。",
        ),
    );
    warnings.push(
        String::from_str("PPT、文档和视频已完成文件级归类，内容抽取器将在 Agent 链路配置阶段接入。"),
    );
    if skipped_directories.len() > 0 {
        let list = join_strings(skipped_directories, "、");
        let mut w = crate::text::lit("为控制体积与风险，已跳过生成目录：");
        push_str(&mut w, list.as_str());
        push_str(&mut w, "。");
        warnings.push(string_of(w.as_slice()));
    }
    proof {
        assert(strings_view(warnings@) =~= fallback_warnings(strings_view(skipped_directories@)));
    }
    ImportAnalysis {
        project_draft: ImportProjectDraft {
            name: String::from_str(project_name),
            slug: slugify(project_name, job_id),
            summary,
            primary_category,
            suggested_tags,
            owner_name,
            source_name,
            highest_award,
            status: String::from_str("待确认"),
        },
        artifact_summary: totals,
        normalized_resources: AgentNormalizedResources::empty(),
        warnings,
        agent: AgentState {
            status: String::from_str("awaiting_configuration"),
            mode: String::from_str("deterministic_fallback"),
            message: String::from_str(
                "材料收集与安全归类链路已打通，等待配置 Codex Base URL 与 API Token。",
            ),
        },
        capabilities: ImportCapabilities {
            zip_upload: String::from_str("prototype_ready"),
            github_link: String::from_str("input_reserved"),
            mixed_files: String::from_str("prototype_ready"),
            codex_agent: String::from_str("awaiting_configuration"),
            github_publish: String::from_str("awaiting_credentials"),
        },
    }
}

/// The draft of an import that has no files: made from its text and links.
pub fn analyze_context_only(source_name: &str, job_id: &str, context: &str, prompt: &str) -> (r:
    AnalysisBuild)
    requires
        on_boundary(job_id@, 8),
    ensures
        r.artifacts@.len() == 0,
        is_fallback_analysis(
            r.analysis,
            source_name@,
            job_id@,
            Seq::empty(),
            context@,
            Seq::empty(),
            prompt@,
        ),
{
    let artifacts: Vec<ArtifactRecord> = Vec::new();
    let skipped: Vec<String> = Vec::new();
    proof {
        assert(strings_view(skipped@) =~= Seq::<Seq<char>>::empty());
        assert(artifacts@ =~= Seq::<ArtifactRecord>::empty());
    }
    let analysis = build_fallback_analysis(
        source_name,
        job_id,
        artifacts.as_slice(),
        context,
        &skipped,
        prompt,
    );
    AnalysisBuild { artifacts, analysis }
}

// ----------------------------------------------------------------------------
// A draft from the agent
// ----------------------------------------------------------------------------

pub open spec fn evidenced_value_view(o: Option<crate::imports::agent::EvidencedValue>) -> Option<Seq<char>> {
    match o {
        Some(v) => Some(v.value@),
        None => None,
    }
}

fn value_of(o: Option<crate::imports::agent::EvidencedValue>) -> (r: Option<String>)
    ensures
        opt_view(r) == evidenced_value_view(o),
{
    match o {
        Some(v) => Some(v.value),
        None => None,
    }
}

/// Replaces the draft with the agent's: its name (trimmed) and the path made
/// from it, summary (trimmed), category, the values of its tags and
/// fields, its resources and warnings; the draft waits for confirmation.
/// The tallies stay.
pub fn apply_agent_result(analysis: &mut ImportAnalysis, result: AgentImportResult, job_id: &str)
    requires
        on_boundary(job_id@, 8),
    ensures
        final(analysis).project_draft.name@ == trim(result.project_name@),
        final(analysis).project_draft.slug@ == spec_slugify(trim(result.project_name@), job_id@),
        final(analysis).project_draft.summary@ == trim(result.summary@),
        final(analysis).project_draft.primary_category@ == result.primary_category@,
        strings_view(final(analysis).project_draft.suggested_tags@) == result.suggested_tags@.map_values(
            |v: crate::imports::agent::EvidencedValue| v.value@,
        ),
        opt_view(final(analysis).project_draft.owner_name) == evidenced_value_view(result.owner),
        opt_view(final(analysis).project_draft.source_name) == evidenced_value_view(result.source),
        opt_view(final(analysis).project_draft.highest_award) == evidenced_value_view(
            result.highest_award,
        ),
        final(analysis).project_draft.status@ == "待确认"@,
        final(analysis).normalized_resources == result.resources,
        final(analysis).warnings == result.warnings,
        final(analysis).artifact_summary == old(analysis).artifact_summary,
        final(analysis).agent.status@ == "completed"@,
        final(analysis).agent.mode@ == "codex_exec"@,
        final(analysis).agent.message@ == "Codex 已读取清洗后的分析包并生成结构化草稿。"@,
        final(analysis).capabilities.codex_agent@ == "prototype_ready"@,
        final(analysis).capabilities.zip_upload == old(analysis).capabilities.zip_upload,
        final(analysis).capabilities.github_link == old(analysis).capabilities.github_link,
        final(analysis).capabilities.mixed_files == old(analysis).capabilities.mixed_files,
        final(analysis).capabilities.github_publish == old(analysis).capabilities.github_publish,
{
    let name = crate::text::trim_str(result.project_name.as_str());
    let slug = slugify(name.as_str(), job_id);
    let summary = crate::text::trim_str(result.summary.as_str());
    let mut tags: Vec<String> = Vec::new();
    let mut i: usize = 0;
    while i < result.suggested_tags.len()
        invariant
            0 <= i <= result.suggested_tags@.len(),
            strings_view(tags@) == result.suggested_tags@.subrange(0, i as int).map_values(
                |v: crate::imports::agent::EvidencedValue| v.value@,
            ),
        decreases result.suggested_tags.len() - i,
    {
        let ghost before = tags@;
        tags.push(result.suggested_tags[i].value.clone());
        proof {
            assert(result.suggested_tags@.subrange(0, i + 1).map_values(
                |v: crate::imports::agent::EvidencedValue| v.value@,
            ) =~= result.suggested_tags@.subrange(0, i as int).map_values(
                |v: crate::imports::agent::EvidencedValue| v.value@,
            ).push(result.suggested_tags@[i as int].value@));
            assert(strings_view(tags@) =~= strings_view(before).push(
                result.suggested_tags@[i as int].value@,
            ));
        }
        i += 1;
    }
    proof {
        assert(result.suggested_tags@.subrange(0, result.suggested_tags@.len() as int)
            =~= result.suggested_tags@);
    }
    analysis.project_draft = ImportProjectDraft {
        name,
        slug,
        summary,
        primary_category: result.primary_category,
        suggested_tags: tags,
        owner_name: value_of(result.owner),
        source_name: value_of(result.source),
        highest_award: value_of(result.highest_award),
        status: String::from_str("待确认"),
    };
    analysis.normalized_resources = result.resources;
    analysis.warnings = result.warnings;
    analysis.agent = AgentState {
        status: String::from_str("completed"),
        mode: String::from_str("codex_exec"),
        message: String::from_str("Codex 已读取清洗后的分析包并生成结构化草稿。"),
    };
    analysis.capabilities.codex_agent = String::from_str("prototype_ready");
}

} // verus!
