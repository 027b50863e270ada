//! What a ray meets first.
//!
//! The ground is tried before the spheres, and the spheres in the order in
//! which the scene lists them. Each candidate is either missed or met at some
//! distance. The nearest one wins; of two at the same distance the one tried
//! first; and nothing at the far limit or beyond counts as met.

use vstd::prelude::*;
use crate::distance::{Distance, unit};

verus! {

/// A surface of the scene.
#[derive(Clone, Copy, Debug, PartialEq, Eq, Structural)]
pub enum Surface {
    /// The tiled ground.
    Ground,
    /// The sphere at this place in the scene's list.
    Sphere(usize),
}

impl Surface {
    /// The place of the surface in the order in which candidates are tried.
    pub open spec fn rank(self) -> int {
        match self {
            Surface::Ground => 0,
            Surface::Sphere(index) => index + 1,
        }
    }
}

/// The candidates in the order in which they are tried.
pub open spec fn candidates(ground: Option<Distance>, spheres: Seq<Option<Distance>>) -> Seq<
    Option<Distance>,
> {
    seq![ground] + spheres
}

/// Whether the candidate at `rank` is met, and no other candidate is met
/// nearer, nor an earlier one at the same distance.
pub open spec fn is_first_nearest(tried: Seq<Option<Distance>>, rank: int) -> bool {
    &&& 0 <= rank < tried.len()
    &&& tried[rank].is_some()
    &&& forall|other: int|
        0 <= other < tried.len() && (#[trigger] tried[other]).is_some() ==> {
            &&& tried[rank].unwrap().magnitude() <= tried[other].unwrap().magnitude()
            &&& other < rank ==> tried[rank].unwrap().magnitude()
                < tried[other].unwrap().magnitude()
        }
}

/// Whether a candidate is met below the far limit.
pub open spec fn met_within_reach(candidate: Option<Distance>) -> bool {
    candidate.is_some() && candidate.unwrap().magnitude() < 1000 * unit()
}

/// At most one candidate is the first nearest.
pub proof fn lemma_first_nearest_is_unique(tried: Seq<Option<Distance>>, a: int, b: int)
    requires
        is_first_nearest(tried, a),
        is_first_nearest(tried, b),
    ensures
        a == b,
{
    if a < b {
        assert(tried[a].is_some());
    } else if b < a {
        assert(tried[b].is_some());
    }
}

/// Picks the surface that the ray meets: the first nearest of the
/// candidates, if it lies below the far limit. `ground` and each entry of
/// `spheres` hold the distance at which that surface is met, or `None` where
/// the ray misses it.
pub fn nearest_surface(ground: Option<Distance>, spheres: &[Option<Distance>]) -> (hit: Option<
    Surface,
>)
    ensures
        hit.is_some() <==> exists|rank: int|
            0 <= rank <= spheres@.len() && met_within_reach(
                #[trigger] candidates(ground, spheres@)[rank],
            ),
        hit.is_some() ==> is_first_nearest(candidates(ground, spheres@), hit.unwrap().rank())
            && met_within_reach(candidates(ground, spheres@)[hit.unwrap().rank()]),
{
    let ghost tried = candidates(ground, spheres@);
    let mut best: Option<(Surface, Distance)> = match ground {
        Some(distance) => Some((Surface::Ground, distance)),
        None => None,
    };
    let mut index: usize = 0;
    while index < spheres.len()
        invariant
            index <= spheres@.len(),
            tried == candidates(ground, spheres@),
            best.is_none() ==> forall|rank: int| 0 <= rank <= index ==> (#[trigger] tried[rank]).is_none(),
            best.is_some() ==> {
                &&& best.unwrap().0.rank() <= index
                &&& is_first_nearest(tried.take(index + 1), best.unwrap().0.rank())
                &&& tried[best.unwrap().0.rank()] == Some(best.unwrap().1)
            },
        decreases spheres@.len() - index,
    {
        let ghost before = tried.take(index + 1);
        let ghost after = tried.take(index + 2);
        assert(tried[index + 1] == spheres@[index as int]);
        assert(forall|rank: int| 0 <= rank <= index ==> before[rank] == after[rank]);
        if let Some(distance) = spheres[index] {
            let nearer = match best {
                Some((_, least)) => distance.nearer_than(least),
                None => true,
            };
            if nearer {
                best = Some((Surface::Sphere(index), distance));
            }
        }
        assert(best.is_some() ==> is_first_nearest(after, best.unwrap().0.rank())) by {
            assert(forall|other: int|
                0 <= other <= index && (#[trigger] after[other]).is_some()
                    ==> before[other].is_some());
        }
        index += 1;
    }
    assert(tried.take(index + 1) =~= tried);
    match best {
        Some((surface, distance)) => {
            if distance.within_reach() {
                assert(met_within_reach(tried[surface.rank()]));
                Some(surface)
            } else {
                assert forall|rank: int| 0 <= rank <= spheres@.len() implies !met_within_reach(
                    #[trigger] tried[rank],
                ) by {
                    if tried[rank].is_some() {
                        assert(tried[surface.rank()].unwrap().magnitude()
                            <= tried[rank].unwrap().magnitude());
                    }
                }
                None
            }
        },
        None => None,
    }
}

/// Whether a light is hidden from a point: the ray sent from the point
/// towards the light meets something, `blocker`, strictly nearer than the
/// light itself.
pub fn shadowed(blocker: Option<Distance>, light: Distance) -> (dark: bool)
    ensures
        dark == (blocker.is_some() && blocker.unwrap().magnitude() < light.magnitude()),
{
    match blocker {
        Some(distance) => distance.nearer_than(light),
        None => false,
    }
}

} // verus!

