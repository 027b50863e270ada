//! How far reflections and refractions are followed.
//!
//! The ray through a pixel is cast at depth 0. Where a ray cast at depth
//! `d` meets a surface it sends out two further rays, one reflected and one
//! refracted, both cast at depth `d + 1`. A ray cast at a depth above
//! `MAX_DEPTH` sends out none: it is given the colour of the sky.

use vstd::prelude::*;

verus! {

/// The greatest depth at which a ray still sends out further rays.
pub const MAX_DEPTH: i32 = 4;

/// The depth of the rays that a ray cast at `depth` sends out from the
/// surface it meets, if it sends out any.
pub open spec fn deeper(depth: int) -> Option<int> {
    if depth <= MAX_DEPTH {
        Some(depth + 1)
    } else {
        None
    }
}

/// The depth at which to cast the reflected and the refracted ray of a ray
/// cast at `depth`, or `None` where the ray is beyond the limit and sends
/// out none.
pub fn next_depth(depth: i32) -> (next: Option<i32>)
    ensures
        next.is_some() <==> depth <= MAX_DEPTH,
        next.is_some() ==> deeper(depth as int) == Some(next.unwrap() as int),
{
    if depth <= MAX_DEPTH {
        Some(depth + 1)
    } else {
        None
    }
}

/// Whether `depths` are the depths of a chain of casts that begins with the
/// ray through a pixel and in which each further ray was sent out by the one
/// before it.
pub open spec fn is_cast_chain(depths: Seq<int>) -> bool {
    &&& depths.len() > 0
    &&& depths[0] == 0
    &&& forall|link: int|
        0 <= link < depths.len() - 1 ==> deeper(#[trigger] depths[link]) == Some(depths[link + 1])
}

/// In a chain of casts the cast at place `link` has depth `link`.
proof fn lemma_depth_counts_links(depths: Seq<int>, link: int)
    requires
        is_cast_chain(depths),
        0 <= link < depths.len(),
    ensures
        depths[link] == link,
    decreases link,
{
    if link > 0 {
        lemma_depth_counts_links(depths, link - 1);
        assert(deeper(depths[link - 1]) == Some(depths[link]));
    }
}

/// The recursion ends: a chain of nested casts holds at most six casts, at
/// the depths 0 to 5, whatever the rays meet.
pub proof fn lemma_cast_chain_is_bounded(depths: Seq<int>)
    requires
        is_cast_chain(depths),
    ensures
        depths.len() <= MAX_DEPTH + 2,
        forall|link: int| 0 <= link < depths.len() ==> 0 <= #[trigger] depths[link] <= MAX_DEPTH + 1,
{
    assert forall|link: int| 0 <= link < depths.len() implies #[trigger] depths[link] == link by {
        lemma_depth_counts_links(depths, link);
    }
    if depths.len() > MAX_DEPTH + 2 {
        assert(depths[5] == 5);
        assert(deeper(depths[5]) == Some(depths[6]));
    }
    assert forall|link: int| 0 <= link < depths.len() implies 0 <= #[trigger] depths[link]
        <= MAX_DEPTH + 1 by {
        assert(depths[link] == link);
    }
}

} // verus!
