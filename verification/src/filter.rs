//! Selection of the star subset of a catalog for rendering.
//!
//! The renderer shows stars as points at the entity's raw fixed-point
//! coordinates scaled down by [`RENDER_SCALE_DENOM`].  The scaling itself is
//! a floating-point step and belongs to the renderer; the library hands it
//! the integer coordinates and the denominator.

use vstd::prelude::*;
use crate::entity::{Entity, EntityView};

verus! {

/// A rendered coordinate is the raw integer coordinate divided by this:
/// ten million, the fixed-point scale of the catalog's units.
pub const RENDER_SCALE_DENOM: u32 = 10000000;

/// The subsequence of star entities, in their original order.
pub open spec fn star_views(cat: Seq<EntityView>) -> Seq<EntityView>
    decreases cat.len(),
{
    if cat.len() == 0 {
        Seq::empty()
    } else if cat.last().is_star() {
        star_views(cat.drop_last()).push(cat.last())
    } else {
        star_views(cat.drop_last())
    }
}

/// Copies the entities whose tag marks a star, keeping their order.
pub fn star_subset(catalog: &Vec<Entity>) -> (r: Vec<Entity>)
    ensures
        crate::loader::entity_views(r@) == star_views(crate::loader::entity_views(catalog@)),
{
    let mut r: Vec<Entity> = Vec::new();
    let mut i: usize = 0;
    while i < catalog.len()
        invariant
            i <= catalog@.len(),
            crate::loader::entity_views(r@) == star_views(
                crate::loader::entity_views(catalog@.take(i as int)),
            ),
        decreases catalog@.len() - i,
    {
        let ghost pre = r@;
        let ghost cat_i = crate::loader::entity_views(catalog@.take(i as int));
        let ghost cat_i1 = crate::loader::entity_views(catalog@.take(i + 1));
        proof {
            assert(cat_i1.drop_last() =~= cat_i);
            assert(cat_i1.last() == catalog@[i as int]@);
        }
        let e = &catalog[i];
        if e.is_star() {
            r.push(e.duplicate());
            proof {
                assert(crate::loader::entity_views(r@) =~= crate::loader::entity_views(
                    pre,
                ).push(r@.last()@));
            }
        }
        i += 1;
    }
    proof {
        assert(catalog@.take(catalog@.len() as int) =~= catalog@);
    }
    r
}

/// The star subset is exactly the catalog filtered to the entities whose
/// tag marks a star, in catalog order.
pub proof fn lemma_star_subset_exact(cat: Seq<EntityView>)
    ensures
        star_views(cat) == cat.filter(|e: EntityView| e.is_star()),
    decreases cat.len(),
{
    reveal(Seq::filter);
    let p = |e: EntityView| e.is_star();
    if cat.len() == 0 {
        assert(star_views(cat) =~= cat.filter(p));
    } else {
        lemma_star_subset_exact(cat.drop_last());
        assert(cat.filter(p) == if p(cat.last()) {
            cat.drop_last().filter(p).push(cat.last())
        } else {
            cat.drop_last().filter(p)
        });
    }
}

} // verus!
