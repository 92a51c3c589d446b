//! Choice of the agent's next move.
use vstd::prelude::*;

use crate::state::{GameState, ResourceInfo};

verus! {

/// `v` as `-1`, `0` or `1`, after its sign.
pub open spec fn sign(v: int) -> int {
    if v > 0 {
        1
    } else if v < 0 {
        -1
    } else {
        0
    }
}

pub open spec fn abs(v: int) -> int {
    if v < 0 {
        -v
    } else {
        v
    }
}

/// Manhattan distance from the cell `p` to the resource `r`.
pub open spec fn distance(r: ResourceInfo, p: (u16, u16)) -> int {
    abs(r.x - p.0) + abs(r.y - p.1)
}

/// `k` is the first index of `rs` among those of the resources nearest to `p`.
pub open spec fn is_first_nearest(rs: Seq<ResourceInfo>, p: (u16, u16), k: int) -> bool {
    &&& 0 <= k < rs.len()
    &&& forall|j: int| 0 <= j < rs.len() ==> distance(rs[k], p) <= #[trigger] distance(rs[j], p)
    &&& forall|j: int| 0 <= j < k ==> distance(rs[k], p) < #[trigger] distance(rs[j], p)
}

/// The step from `p` towards the resource `r`, one cell at most on each axis.
pub open spec fn step_towards(r: ResourceInfo, p: (u16, u16)) -> (int, int) {
    (sign(r.x - p.0), sign(r.y - p.1))
}

/// A strategy decides the agent's next move from the game state.
pub trait Strategy: Send {
    /// The next move `(dx, dy)`, each of `dx` and `dy` in `{-1, 0, 1}`, or
    /// `None` to stay in place.
    fn next_move(&self, state: &GameState) -> (m: Option<(i8, i8)>)
        ensures
            m matches Some((dx, dy)) ==> -1 <= dx <= 1 && -1 <= dy <= 1,
    ;
}

/// Heads for the resource nearest to the agent (Manhattan distance; the first
/// one listed among equally near ones).
pub struct NearestResourceStrategy;

impl Strategy for NearestResourceStrategy {
    /// `None` when there is no resource; else the step towards the first of the
    /// nearest resources.
    fn next_move(&self, state: &GameState) -> (m: Option<(i8, i8)>)
        ensures
            m is None <==> state.resources@.len() == 0,
            m matches Some((dx, dy)) ==> exists|k: int|
                is_first_nearest(state.resources@, state.position, k) && (dx as int, dy as int)
                    == step_towards(state.resources@[k], state.position),
    {
        let n: usize = state.resources.len();
        if n == 0 {
            return None;
        }
        let p = state.position;
        let mut best: usize = 0;
        let mut best_d: u32 = manhattan(&state.resources[0], p);
        let mut i: usize = 1;
        while i < n
            invariant
                n == state.resources@.len(),
                p == state.position,
                1 <= i <= n,
                0 <= best < i,
                best_d == distance(state.resources@[best as int], p),
                forall|j: int|
                    0 <= j < i ==> distance(state.resources@[best as int], p) <= #[trigger] distance(
                        state.resources@[j],
                        p,
                    ),
                forall|j: int|
                    0 <= j < best ==> distance(state.resources@[best as int], p) < #[trigger] distance(
                        state.resources@[j],
                        p,
                    ),
            decreases n - i,
        {
            let d: u32 = manhattan(&state.resources[i], p);
            if d < best_d {
                best = i;
                best_d = d;
            }
            i = i + 1;
        }
        let r = &state.resources[best];
        let dx: i8 = direction(r.x, p.0);
        let dy: i8 = direction(r.y, p.1);
        assert(is_first_nearest(state.resources@, state.position, best as int));
        Some((dx, dy))
    }
}

/// Manhattan distance from `p` to `r`.
fn manhattan(r: &ResourceInfo, p: (u16, u16)) -> (d: u32)
    ensures
        d == distance(*r, p),
{
    let dx: u32 = if r.x >= p.0 { (r.x - p.0) as u32 } else { (p.0 - r.x) as u32 };
    let dy: u32 = if r.y >= p.1 { (r.y - p.1) as u32 } else { (p.1 - r.y) as u32 };
    dx + dy
}

/// The sign of `to - from`.
fn direction(to: u16, from: u16) -> (s: i8)
    ensures
        s == sign(to - from),
{
    if to > from {
        1
    } else if to < from {
        -1
    } else {
        0
    }
}

/// Taking the step towards a resource brings the agent closer to it by the
/// length of the step, and the step is null only on the resource's cell.
pub proof fn lemma_step_approaches(r: ResourceInfo, p: (u16, u16))
    ensures
        ({
            let (dx, dy) = step_towards(r, p);
            &&& abs(r.x - (p.0 + dx)) + abs(r.y - (p.1 + dy)) == distance(r, p) - abs(dx) - abs(dy)
            &&& (dx == 0 && dy == 0) <==> (r.x == p.0 && r.y == p.1)
        }),
{
}

/// The distance used to rank resources is the Manhattan distance: the
/// difference of the columns plus the difference of the rows.
pub proof fn lemma_distance_is_manhattan(r: ResourceInfo, p: (u16, u16))
    ensures
        distance(r, p) == (if r.x >= p.0 { r.x - p.0 } else { p.0 - r.x }) + (if r.y >= p.1 {
            r.y - p.1
        } else {
            p.1 - r.y
        }),
        distance(r, p) >= 0,
        distance(r, p) == 0 <==> (r.x == p.0 && r.y == p.1),
{
}

/// The chosen resource is a nearest one, and no resource listed before it is
/// as near: its distance is at most that of every resource, and strictly less
/// than that of every resource before it.
pub proof fn lemma_chosen_resource_is_first_nearest(rs: Seq<ResourceInfo>, p: (u16, u16), k: int)
    requires
        is_first_nearest(rs, p, k),
    ensures
        0 <= k < rs.len(),
        forall|j: int| 0 <= j < rs.len() ==> distance(rs[k], p) <= #[trigger] distance(rs[j], p),
        forall|j: int| 0 <= j < k ==> distance(rs[k], p) < #[trigger] distance(rs[j], p),
        forall|k2: int| #[trigger] is_first_nearest(rs, p, k2) ==> k2 == k,
{
    assert forall|k2: int| #[trigger] is_first_nearest(rs, p, k2) implies k2 == k by {
        if k2 < k {
            assert(distance(rs[k], p) < distance(rs[k2], p));
            assert(distance(rs[k2], p) <= distance(rs[k], p));
        } else if k < k2 {
            assert(distance(rs[k2], p) < distance(rs[k], p));
            assert(distance(rs[k], p) <= distance(rs[k2], p));
        }
    }
}

/// The step towards a resource moves one cell along each axis on which the
/// resource differs from the agent, in the resource's direction, and none along
/// an axis on which they agree.
pub proof fn lemma_step_is_unit_towards(r: ResourceInfo, p: (u16, u16))
    ensures
        step_towards(r, p).0 == (if r.x > p.0 {
            1int
        } else if r.x < p.0 {
            -1int
        } else {
            0int
        }),
        step_towards(r, p).1 == (if r.y > p.1 {
            1int
        } else if r.y < p.1 {
            -1int
        } else {
            0int
        }),
{
}

/// What the nearest-resource strategy answers: no move exactly when there is
/// no resource; otherwise the unit step towards a resource whose Manhattan
/// distance is no greater than any other's and strictly less than that of the
/// resources listed before it.
pub proof fn lemma_nearest_move(state: GameState, m: Option<(i8, i8)>)
    requires
        m is None <==> state.resources@.len() == 0,
        m matches Some((dx, dy)) ==> exists|k: int|
            is_first_nearest(state.resources@, state.position, k) && (dx as int, dy as int)
                == step_towards(state.resources@[k], state.position),
    ensures
        m is None <==> state.resources@.len() == 0,
        m matches Some((dx, dy)) ==> exists|k: int|
            #![trigger state.resources@[k]]
            {
                let r = state.resources@[k];
                let p = state.position;
                &&& 0 <= k < state.resources@.len()
                &&& forall|j: int|
                    0 <= j < state.resources@.len() ==> distance(r, p) <= #[trigger] distance(
                        state.resources@[j],
                        p,
                    )
                &&& forall|j: int|
                    0 <= j < k ==> distance(r, p) < #[trigger] distance(state.resources@[j], p)
                &&& dx == (if r.x > p.0 {
                    1int
                } else if r.x < p.0 {
                    -1int
                } else {
                    0int
                })
                &&& dy == (if r.y > p.1 {
                    1int
                } else if r.y < p.1 {
                    -1int
                } else {
                    0int
                })
            },
{
    if let Some((dx, dy)) = m {
        let k = choose|k: int|
            is_first_nearest(state.resources@, state.position, k) && (dx as int, dy as int)
                == step_towards(state.resources@[k], state.position);
        lemma_chosen_resource_is_first_nearest(state.resources@, state.position, k);
        lemma_step_is_unit_towards(state.resources@[k], state.position);
        assert(state.resources@[k] == state.resources@[k]);
    }
}

} // verus!
