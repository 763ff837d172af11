//! The robust "all intersections along a ray" core.
//!
//! A probe ray is intersected with every triangle of the mesh; the caller
//! computes those raw hit points and hands them over as a list. The result
//! of the query must be that list sorted along the [`lex_le`] order, and it
//! is only trusted when no two hit points are exactly equal: an exact
//! duplicate means the ray grazed a shared edge or vertex and the crossing
//! was double-counted by the two triangles meeting there. When the original
//! ray is ambiguous in that sense, a fixed list of three deterministically
//! perturbed rays is tried in order, and the first unambiguous candidate
//! wins; when all four candidates stay ambiguous, the query fails with
//! [`MeshError::UnresolvableDegeneracy`].

use vstd::prelude::*;
use crate::errors::MeshError;
use crate::vector::{
    Cvector,
    lemma_lex_le_antisymmetric,
    lemma_lex_le_total,
    lemma_lex_le_transitive,
    lex_le,
};

verus! {

broadcast use vstd::seq_lib::group_to_multiset_ensures;

/// The points stand in [`lex_le`] order.
pub open spec fn sorted(s: Seq<Cvector>) -> bool {
    forall|i: int, j: int| 0 <= i < j < s.len() ==> #[trigger] lex_le(s[i], s[j])
}

/// No two neighbouring points are exactly equal — the test the original
/// candidate and each perturbed retry must pass once sorted.
pub open spec fn adjacent_distinct(s: Seq<Cvector>) -> bool {
    forall|i: int| 0 < i < s.len() ==> s[i - 1] != #[trigger] s[i]
}

/// The views of a list of candidate hit lists.
pub open spec fn cand_views(cands: Seq<Vec<Cvector>>) -> Seq<Seq<Cvector>> {
    cands.map_values(|c: Vec<Cvector>| c@)
}

/// Index of the first candidate hit list free of exact duplicates, or the
/// length of the candidate list when every candidate is ambiguous.
pub open spec fn first_clean(cs: Seq<Seq<Cvector>>) -> int
    decreases cs.len(),
{
    if cs.len() == 0 {
        0
    } else if cs[0].no_duplicates() {
        0
    } else {
        1 + first_clean(cs.drop_first())
    }
}

/// Some candidate hit list is free of exact duplicates.
pub open spec fn resolvable(cs: Seq<Seq<Cvector>>) -> bool {
    first_clean(cs) < cs.len()
}

/// [`first_clean`] is the first duplicate-free candidate: every candidate
/// before it is ambiguous, and it is duplicate-free when it is in range.
pub proof fn lemma_first_clean(cs: Seq<Seq<Cvector>>)
    ensures
        0 <= first_clean(cs) <= cs.len(),
        forall|j: int| 0 <= j < first_clean(cs) ==> !(#[trigger] cs[j]).no_duplicates(),
        first_clean(cs) < cs.len() ==> cs[first_clean(cs)].no_duplicates(),
    decreases cs.len(),
{
    if cs.len() != 0 && !cs[0].no_duplicates() {
        let rest = cs.drop_first();
        lemma_first_clean(rest);
        assert forall|j: int| 0 <= j < first_clean(cs) implies !(#[trigger] cs[j]).no_duplicates() by {
            if j > 0 {
                assert(rest[j - 1] == cs[j]);
                assert(!rest[j - 1].no_duplicates());
            }
        }
        if first_clean(cs) < cs.len() {
            assert(rest[first_clean(cs) - 1] == cs[first_clean(cs)]);
        }
    }
}

/// Sorts hit points along the ray: the result is ordered by [`lex_le`] and
/// holds exactly the points given, duplicates included.
pub fn sort_intersections(points: &Vec<Cvector>) -> (r: Vec<Cvector>)
    ensures
        sorted(r@),
        r@.to_multiset() == points@.to_multiset(),
{
    let mut out: Vec<Cvector> = Vec::new();
    let mut i: usize = 0;
    while i < points.len()
        invariant
            i <= points@.len(),
            sorted(out@),
            out@.to_multiset() == points@.take(i as int).to_multiset(),
        decreases points@.len() - i,
    {
        out = insert_sorted(out, points[i]);
        proof {
            assert(points@.take(i as int + 1) =~= points@.take(i as int).push(
                points@[i as int],
            ));
        }
        i += 1;
    }
    proof {
        assert(points@.take(points@.len() as int) =~= points@);
    }
    out
}

/// First position of `out` whose point does not precede `p`.
fn insertion_point(out: &Vec<Cvector>, p: &Cvector) -> (j: usize)
    ensures
        j <= out@.len(),
        forall|k: int| 0 <= k < j ==> lex_le(#[trigger] out@[k], *p),
        j < out@.len() ==> !lex_le(out@[j as int], *p),
{
    let n = out.len();
    let mut j: usize = 0;
    while j < n
        invariant
            j <= n,
            n == out@.len(),
            forall|k: int| 0 <= k < j ==> lex_le(#[trigger] out@[k], *p),
        decreases n - j,
    {
        if !out[j].le(p) {
            return j;
        }
        j += 1;
    }
    j
}

/// Places one point into an already sorted list.
fn insert_sorted(out: Vec<Cvector>, p: Cvector) -> (r: Vec<Cvector>)
    requires
        sorted(out@),
    ensures
        sorted(r@),
        r@.to_multiset() == out@.to_multiset().insert(p),
{
    let ghost s0 = out@;
    let j = insertion_point(&out, &p);
    let mut r = out;
    r.insert(j, p);
    proof {
        let ji = j as int;
        s0.insert_ensures(ji, p);
        assert(r@ == s0.insert(ji, p));
        assert(r@.to_multiset() == s0.to_multiset().insert(p));
        assert forall|x: int, y: int| 0 <= x < y < r@.len() implies #[trigger] lex_le(
            r@[x],
            r@[y],
        ) by {
            if y < ji {
                assert(r@[x] == s0[x] && r@[y] == s0[y]);
            } else if x < ji && y == ji {
                assert(r@[x] == s0[x] && r@[y] == p);
            } else if x == ji {
                assert(r@[x] == p && r@[y] == s0[y - 1] && ji <= y - 1 < s0.len());
                lemma_lex_le_total(s0[ji], p);
                if ji < y - 1 {
                    assert(lex_le(s0[ji], s0[y - 1]));
                }
                lemma_lex_le_transitive(p, s0[ji], s0[y - 1]);
            } else if x < ji {
                assert(r@[x] == s0[x] && r@[y] == s0[y - 1] && x < y - 1);
            } else {
                assert(r@[x] == s0[x - 1] && r@[y] == s0[y - 1] && x - 1 < y - 1);
            }
        }
    }
    r
}

/// Rejects a sorted hit list exactly when two neighbouring points are
/// exactly equal (the ray grazed a shared edge or vertex).
pub fn check_intersections(points: &Vec<Cvector>) -> (r: bool)
    ensures
        r == adjacent_distinct(points@),
{
    let n = points.len();
    let mut i: usize = 1;
    while i < n
        invariant
            1 <= i,
            n == points@.len(),
            forall|j: int| 0 < j < i ==> points@[j - 1] != #[trigger] points@[j],
        decreases n - i,
    {
        if points[i - 1] == points[i] {
            assert(!adjacent_distinct(points@)) by {
                assert(points@[i as int - 1] == points@[i as int]);
            }
            return false;
        }
        i += 1;
    }
    true
}

/// In a sorted list, freedom from adjacent exact duplicates is the same as
/// freedom from duplicates anywhere in the points it was sorted from: the
/// order ties only on equal vectors, so a sort brings every duplicate into
/// an adjacent position.
pub proof fn lemma_adjacent_distinct_iff_distinct(raw: Seq<Cvector>, s: Seq<Cvector>)
    requires
        sorted(s),
        s.to_multiset() == raw.to_multiset(),
    ensures
        adjacent_distinct(s) <==> raw.no_duplicates(),
{
    if adjacent_distinct(s) {
        assert forall|i: int, j: int|
            0 <= i < s.len() && 0 <= j < s.len() && i != j implies s[i] != s[j] by {
            let a = if i < j {
                i
            } else {
                j
            };
            let b = if i < j {
                j
            } else {
                i
            };
            if s[a] == s[b] {
                assert(lex_le(s[a], s[a + 1]));
                if a + 1 < b {
                    assert(lex_le(s[a + 1], s[b]));
                } else {
                    lemma_lex_le_total(s[a + 1], s[b]);
                }
                lemma_lex_le_antisymmetric(s[a], s[a + 1]);
            }
        }
        assert(s.no_duplicates());
        s.lemma_multiset_has_no_duplicates();
        raw.lemma_multiset_has_no_duplicates_conv();
    }
    if raw.no_duplicates() {
        raw.lemma_multiset_has_no_duplicates();
        s.lemma_multiset_has_no_duplicates_conv();
    }
}

/// A sorted list is determined by what it holds: two [`lex_le`]-sorted
/// lists of the same points, duplicates included, are equal. So a contract
/// that fixes a result's order and its contents, as those of
/// [`sort_intersections`] and [`resolve_intersections`] do, fixes the
/// result itself.
pub proof fn lemma_sorted_unique(s: Seq<Cvector>, t: Seq<Cvector>)
    requires
        sorted(s),
        sorted(t),
        s.to_multiset() == t.to_multiset(),
    ensures
        s == t,
    decreases s.len(),
{
    assert(s.len() == s.to_multiset().len());
    assert(t.len() == t.to_multiset().len());
    if s.len() == 0 {
        assert(s =~= t);
    } else {
        assert(s.to_multiset().count(s[0]) > 0) by {
            assert(s.contains(s[0]));
        }
        assert(t.contains(s[0]));
        let j = choose|j: int| 0 <= j < t.len() && t[j] == s[0];
        assert(t.to_multiset().count(t[0]) > 0) by {
            assert(t.contains(t[0]));
        }
        assert(s.contains(t[0]));
        let k = choose|k: int| 0 <= k < s.len() && s[k] == t[0];
        if j > 0 && k > 0 {
            assert(lex_le(t[0], t[j]));
            assert(lex_le(s[0], s[k]));
            lemma_lex_le_antisymmetric(s[0], t[0]);
        }
        assert(s[0] == t[0]);
        let s1 = s.drop_first();
        let t1 = t.drop_first();
        assert(s1.to_multiset() =~= s.to_multiset().remove(s[0])) by {
            assert(s.remove(0) =~= s1);
            assert(s.remove(0).to_multiset() =~= s.to_multiset().remove(s[0]));
        }
        assert(t1.to_multiset() =~= t.to_multiset().remove(t[0])) by {
            assert(t.remove(0) =~= t1);
            assert(t.remove(0).to_multiset() =~= t.to_multiset().remove(t[0]));
        }
        assert(sorted(s1)) by {
            assert forall|x: int, y: int| 0 <= x < y < s1.len() implies #[trigger] lex_le(
                s1[x],
                s1[y],
            ) by {
                assert(s1[x] == s[x + 1] && s1[y] == s[y + 1]);
                assert(lex_le(s[x + 1], s[y + 1]));
            }
        }
        assert(sorted(t1)) by {
            assert forall|x: int, y: int| 0 <= x < y < t1.len() implies #[trigger] lex_le(
                t1[x],
                t1[y],
            ) by {
                assert(t1[x] == t[x + 1] && t1[y] == t[y + 1]);
                assert(lex_le(t[x + 1], t[y + 1]));
            }
        }
        lemma_sorted_unique(s1, t1);
        assert(s =~= t) by {
            assert(forall|i: int| 0 < i < s.len() ==> #[trigger] s[i] == s1[i - 1]);
            assert(forall|i: int| 0 < i < t.len() ==> #[trigger] t[i] == t1[i - 1]);
        }
    }
}

/// Resolves one probe query from its candidate hit lists — the original
/// ray's first, then the three perturbed retries in their fixed order.
/// Each candidate is sorted and accepted only if it is free of exact
/// duplicates; the first acceptable candidate is the result, and when every
/// candidate stays ambiguous the query fails with
/// [`MeshError::UnresolvableDegeneracy`].
pub fn resolve_intersections(candidates: &Vec<Vec<Cvector>>) -> (r: Result<Vec<Cvector>, MeshError>)
    ensures
        match r {
            Ok(pts) => {
                let cs = cand_views(candidates@);
                &&& resolvable(cs)
                &&& sorted(pts@)
                &&& pts@.to_multiset() == cs[first_clean(cs)].to_multiset()
                &&& pts@.no_duplicates()
            },
            Err(e) => {
                &&& e == MeshError::UnresolvableDegeneracy
                &&& !resolvable(cand_views(candidates@))
            },
        },
{
    let ghost cs = cand_views(candidates@);
    let n = candidates.len();
    let mut i: usize = 0;
    while i < n
        invariant
            i <= n,
            n == candidates@.len(),
            cs == cand_views(candidates@),
            forall|j: int| 0 <= j < i ==> !(#[trigger] cs[j]).no_duplicates(),
        decreases n - i,
    {
        let cand: &Vec<Cvector> = &candidates[i];
        let pts = sort_intersections(cand);
        proof {
            assert(cs[i as int] == candidates@[i as int]@);
            lemma_adjacent_distinct_iff_distinct(cs[i as int], pts@);
        }
        if check_intersections(&pts) {
            proof {
                lemma_first_clean(cs);
                assert(first_clean(cs) == i) by {
                    if first_clean(cs) < i {
                        assert(!cs[first_clean(cs)].no_duplicates());
                    }
                    if first_clean(cs) > i {
                        assert(!cs[i as int].no_duplicates());
                    }
                }
                lemma_adjacent_distinct_iff_distinct(pts@, pts@);
            }
            return Ok(pts);
        }
        i += 1;
    }
    proof {
        lemma_first_clean(cs);
        assert(!resolvable(cs)) by {
            if first_clean(cs) < cs.len() {
                assert(!cs[first_clean(cs)].no_duplicates());
            }
        }
    }
    Err(MeshError::UnresolvableDegeneracy)
}

} // verus!
