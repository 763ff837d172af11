//! The mesh integrity verdict.
//!
//! For every triangle of the mesh, one probe ray is cast from just outside
//! that triangle's face back through the solid, and its crossings of the
//! whole surface are collected by the intersection core. A closed manifold
//! admits an even crossing count for every such probe; the first triangle
//! whose count is odd is evidence of a hole, crack, or inconsistently
//! oriented face, and is reported together with its intersection points.
//! A triangle whose probe stays ambiguous through every perturbation retry
//! is reported as numerically degenerate instead of corrupting the verdict.

use vstd::prelude::*;
use crate::intersections::{
    cand_views,
    first_clean,
    resolvable,
    resolve_intersections,
    sorted,
};
use crate::vector::Cvector;

verus! {

broadcast use vstd::seq_lib::group_to_multiset_ensures;

/// Per-triangle candidate sets as mathematical sequences.
pub open spec fn probe_views(sets: Seq<Vec<Vec<Cvector>>>) -> Seq<Seq<Seq<Cvector>>> {
    sets.map_values(|cands: Vec<Vec<Cvector>>| cand_views(cands@))
}

/// One triangle passes the parity test: its probe query resolves, and the
/// resolved crossing count is even.
pub open spec fn triangle_ok(cands: Seq<Seq<Cvector>>) -> bool {
    resolvable(cands) && cands[first_clean(cands)].len() % 2 == 0
}

/// Verdict of a validation run.
#[derive(Clone, Debug)]
pub enum MeshReport {
    /// Every triangle's probe resolved to an even crossing count.
    Closed,
    /// The first triangle, by index, whose probe resolved to an odd
    /// crossing count, with the resolved intersection points for diagnosis.
    Broken {
        /// Index of the offending triangle in the input collection.
        index: usize,
        /// The offending probe's resolved intersection points, in ray order.
        hits: Vec<Cvector>,
    },
    /// The first triangle, by index, whose probe stayed ambiguous through
    /// the original ray and all three perturbation retries.
    Degenerate {
        /// Index of the triangle whose parity could not be determined.
        index: usize,
    },
}

/// The integrity check itself. It holds no state: the verdict is a pure
/// function of the per-triangle probe data.
pub struct MeshIntegrityChecker {}

impl MeshIntegrityChecker {
    /// Reduces the per-triangle probe queries to a verdict. `candidate_sets`
    /// holds, for each triangle in input order, the candidate hit lists of
    /// its probe ray (the unperturbed ray's first, then the fixed retries).
    /// Triangles are examined in index order and the first one that fails —
    /// by odd parity or by unresolvable degeneracy — is reported.
    pub fn check(candidate_sets: &Vec<Vec<Vec<Cvector>>>) -> (r: MeshReport)
        ensures
            ({
                let cs = probe_views(candidate_sets@);
                &&& (r is Closed) <==> (forall|i: int|
                    0 <= i < cs.len() ==> #[trigger] triangle_ok(cs[i]))
                &&& (r matches MeshReport::Broken { index, hits } ==> {
                    &&& index < cs.len()
                    &&& resolvable(cs[index as int])
                    &&& sorted(hits@)
                    &&& hits@.to_multiset() == cs[index as int][first_clean(
                        cs[index as int],
                    )].to_multiset()
                    &&& hits@.len() % 2 == 1
                    &&& forall|j: int| 0 <= j < index ==> #[trigger] triangle_ok(cs[j])
                })
                &&& (r matches MeshReport::Degenerate { index } ==> {
                    &&& index < cs.len()
                    &&& !resolvable(cs[index as int])
                    &&& forall|j: int| 0 <= j < index ==> #[trigger] triangle_ok(cs[j])
                })
            }),
    {
        let ghost cs = probe_views(candidate_sets@);
        let n = candidate_sets.len();
        let mut i: usize = 0;
        while i < n
            invariant
                i <= n,
                n == candidate_sets@.len(),
                cs == probe_views(candidate_sets@),
                forall|j: int| 0 <= j < i ==> #[trigger] triangle_ok(cs[j]),
            decreases n - i,
        {
            let cands: &Vec<Vec<Cvector>> = &candidate_sets[i];
            proof {
                assert(cs[i as int] == cand_views(candidate_sets@[i as int]@));
            }
            match resolve_intersections(cands) {
                Ok(pts) => {
                    let ghost ci = cs[i as int];
                    proof {
                        assert(pts@.len() == pts@.to_multiset().len());
                        assert(ci[first_clean(ci)].len() == ci[first_clean(ci)].to_multiset().len());
                    }
                    if pts.len() % 2 != 0 {
                        proof {
                            assert(!triangle_ok(ci));
                        }
                        return MeshReport::Broken { index: i, hits: pts };
                    }
                    proof {
                        assert(triangle_ok(ci));
                    }
                },
                Err(_) => {
                    proof {
                        assert(!triangle_ok(cs[i as int]));
                    }
                    return MeshReport::Degenerate { index: i };
                },
            }
            i += 1;
        }
        MeshReport::Closed
    }
}

/// The bare parity reduction of a run in which every probe resolved: the
/// first triangle, by index, whose intersection list has odd length, or
/// nothing when every count is even.
pub fn first_odd_parity(inters: &Vec<Vec<Cvector>>) -> (r: Option<usize>)
    ensures
        match r {
            Some(i) => {
                &&& i < inters@.len()
                &&& inters@[i as int]@.len() % 2 == 1
                &&& forall|j: int| 0 <= j < i ==> (#[trigger] inters@[j])@.len() % 2 == 0
            },
            None => forall|j: int|
                0 <= j < inters@.len() ==> (#[trigger] inters@[j])@.len() % 2 == 0,
        },
{
    let n = inters.len();
    let mut i: usize = 0;
    while i < n
        invariant
            i <= n,
            n == inters@.len(),
            forall|j: int| 0 <= j < i ==> (#[trigger] inters@[j])@.len() % 2 == 0,
        decreases n - i,
    {
        if inters[i].len() % 2 != 0 {
            return Some(i);
        }
        i += 1;
    }
    None
}

} // verus!
