//! The proximity index: which tracked entities lie within a radius of a
//! point. It is answered from the current positions on every query, so it
//! is never stale.

use vstd::prelude::*;
use crate::common::{IVec2, in_world, dist2, distance_squared};
use crate::world::{EntityId, World, Components, alive, slots_wf};

verus! {

/// A live entity tracked by the index, within `radius` of `point`.
pub open spec fn indexed_within(s: Seq<Option<Components>>, j: int, point: IVec2, radius: int) -> bool {
    alive(s, j) && s[j]->0.nearest_neighbour is Some && dist2(s[j]->0.position, point) <= radius * radius
}

impl World {
    /// The ids of the tracked entities within `radius` of `point`, in
    /// increasing order.
    pub fn within_distance(&self, point: IVec2, radius: u32) -> (ids: Vec<EntityId>)
        requires
            self.wf(),
            in_world(point),
        ensures
            forall|a: int, b: int| 0 <= a < b < ids.len() ==> ids[a] < ids[b],
            forall|k: int| 0 <= k < ids.len() ==> indexed_within(self.entities@, #[trigger] ids[k] as int, point, radius as int),
            forall|j: int| indexed_within(self.entities@, j, point, radius as int) ==> exists|k: int| 0 <= k < ids.len() && #[trigger] ids[k] == j,
    {
        let s = &self.entities;
        assert(radius as u64 * radius as u64 <= u64::MAX) by (nonlinear_arith)
            requires
                radius <= u32::MAX,
        ;
        let r2: u64 = radius as u64 * radius as u64;
        let mut ids: Vec<EntityId> = Vec::new();
        let mut i: usize = 0;
        while i < s.len()
            invariant
                0 <= i <= s.len(),
                slots_wf(s@),
                in_world(point),
                r2 == radius * radius,
                forall|a: int, b: int| 0 <= a < b < ids.len() ==> ids[a] < ids[b],
                forall|k: int| 0 <= k < ids.len() ==> ids[k] < i,
                forall|k: int| 0 <= k < ids.len() ==> indexed_within(s@, #[trigger] ids[k] as int, point, radius as int),
                forall|j: int| 0 <= j < i && indexed_within(s@, j, point, radius as int) ==> exists|k: int| 0 <= k < ids.len() && #[trigger] ids[k] == j,
            decreases s.len() - i,
        {
            let ghost before = ids@;
            if let Some(c) = &s[i] {
                if c.nearest_neighbour.is_some() {
                    proof {
                        assert(in_world(c.position));
                    }
                    if distance_squared(c.position, point) <= r2 {
                        ids.push(i);
                        proof {
                            assert(ids[ids.len() - 1] == i);
                        }
                    }
                }
            }
            proof {
                assert forall|j: int| 0 <= j < i + 1 && indexed_within(s@, j, point, radius as int) implies exists|k: int| 0 <= k < ids.len() && #[trigger] ids[k] == j by {
                    if j < i {
                        let k = choose|k: int| 0 <= k < before.len() && before[k] == j;
                        assert(ids[k] == j);
                    } else {
                        assert(ids[ids.len() - 1] == j);
                    }
                }
            }
            i = i + 1;
        }
        ids
    }
}

} // verus!
