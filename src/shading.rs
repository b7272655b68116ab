use vstd::prelude::*;

verus! {

/// The rays that a hit spawns beyond its local color, each with the
/// reflection budget it is traced with.
#[derive(Clone, Copy, Debug, PartialEq, Eq, Structural)]
pub struct SecondaryRays {
    /// The ray that passes through the surface, if one is traced.
    pub transmitted: Option<u32>,
    /// The mirrored ray, if one is traced.
    pub reflected: Option<u32>,
}

/// What a hit spawns. `blends`: the surface is not fully opaque and the share
/// of the pixel that the current ray carries is still above the cutoff;
/// otherwise the local color is final and nothing is spawned. A transparent
/// surface passes its ray on with the same budget; a reflective one mirrors
/// it, spending one unit of budget, while any is left. An inactive branch
/// takes the local color in its place.
pub open spec fn spawned_rays(blends: bool, transparent: bool, reflective: bool, budget: u32) -> Option<
    SecondaryRays,
> {
    if blends {
        Some(
            SecondaryRays {
                transmitted: if transparent {
                    Some(budget)
                } else {
                    None
                },
                reflected: if reflective && budget > 0 {
                    Some((budget - 1) as u32)
                } else {
                    None
                },
            },
        )
    } else {
        None
    }
}

/// Decides which secondary rays a hit spawns; see `spawned_rays`. The
/// comparisons of the surface's coefficients with the tolerance are the
/// caller's.
pub fn secondary_rays(blends: bool, transparent: bool, reflective: bool, budget: u32) -> (r: Option<
    SecondaryRays,
>)
    ensures
        r == spawned_rays(blends, transparent, reflective, budget),
{
    if blends {
        let transmitted = if transparent {
            Some(budget)
        } else {
            None
        };
        let reflected = if reflective && budget > 0 {
            Some(budget - 1)
        } else {
            None
        };
        Some(SecondaryRays { transmitted, reflected })
    } else {
        None
    }
}

/// Reflections cannot go on for ever: along any chain of rays in which each
/// ray is the reflected ray spawned by the hit of the one before it, whatever
/// surfaces are hit, the budget drops by one at each step, so a chain that
/// starts with budget `d` holds at most `d + 1` rays. Two mirrors facing each
/// other make such a chain.
pub proof fn lemma_reflection_chain_bounded(budgets: Seq<u32>, surfaces: Seq<(bool, bool, bool)>)
    requires
        budgets.len() >= 1,
        surfaces.len() + 1 == budgets.len(),
        forall|k: int|
            0 <= k < surfaces.len() ==> {
                let s = #[trigger] surfaces[k];
                let spawned = spawned_rays(s.0, s.1, s.2, budgets[k]);
                spawned.is_some() && spawned.unwrap().reflected == Some(budgets[k + 1])
            },
    ensures
        budgets.len() <= budgets[0] + 1,
        forall|k: int| 0 <= k < budgets.len() ==> #[trigger] budgets[k] == budgets[0] - k,
{
    assert forall|k: int| 0 <= k < budgets.len() implies #[trigger] budgets[k] == budgets[0] - k by {
        lemma_chain_prefix(budgets, surfaces, k);
    };
    let last = budgets.len() - 1;
    assert(budgets[last] == budgets[0] - last);
}

proof fn lemma_chain_prefix(budgets: Seq<u32>, surfaces: Seq<(bool, bool, bool)>, k: int)
    requires
        0 <= k < budgets.len(),
        surfaces.len() + 1 == budgets.len(),
        forall|j: int|
            0 <= j < surfaces.len() ==> {
                let s = #[trigger] surfaces[j];
                let spawned = spawned_rays(s.0, s.1, s.2, budgets[j]);
                spawned.is_some() && spawned.unwrap().reflected == Some(budgets[j + 1])
            },
    ensures
        budgets[k] == budgets[0] - k,
    decreases k,
{
    if k > 0 {
        lemma_chain_prefix(budgets, surfaces, k - 1);
        let s = surfaces[k - 1];
        assert(spawned_rays(s.0, s.1, s.2, budgets[k - 1]).unwrap().reflected == Some(budgets[k]));
    }
}

/// Whether the checkerboard tile at `(tile_x, tile_y)` shows the surface's
/// own color: tiles whose coordinates have an even sum do, the others are
/// black.
pub fn checker_shows_base(tile_x: i32, tile_y: i32) -> (r: bool)
    ensures
        r == ((tile_x as int + tile_y as int) % 2 == 0),
{
    let sum: i64 = tile_x as i64 + tile_y as i64;
    sum % 2 == 0
}

} // verus!
