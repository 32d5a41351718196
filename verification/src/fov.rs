//! Field of view: which cells can be seen from an origin across the hex
//! map, out to a range, stopping at sight-blocking terrain.
//!
//! A cell is visible when the hex ray walked toward it from the origin
//! reaches it without crossing a blocking cell strictly between the two.
//! The ray is the greedy walk that moves diagonally while strictly
//! inside a sextant and along an axis otherwise.

use vstd::prelude::*;
use crate::location::{iabs, imax, Location};
use crate::terrain::{terrain_at, Terrain, TerrainMap};

verus! {

/// One step of the ray: the direction delta toward a coordinate
/// difference, undefined for the zero difference.
pub open spec fn step_delta(dx: int, dy: int) -> (int, int) {
    if dx > 0 && dy > 0 {
        (1int, 1int)
    } else if dx < 0 && dy < 0 {
        (-1int, -1int)
    } else if dx > 0 {
        (1int, 0int)
    } else if dx < 0 {
        (-1int, 0int)
    } else if dy > 0 {
        (0int, 1int)
    } else {
        (0int, -1int)
    }
}

/// The next cell of the ray from `cur` toward `t`.
pub open spec fn step_toward(cur: Location, t: Location) -> Location {
    cur.shifted(step_delta(t.x - cur.x, t.y - cur.y).0, step_delta(t.x - cur.x, t.y - cur.y).1)
}

/// Every ray step closes exactly one hex of distance and stays within
/// the coordinate box of its endpoints.
pub proof fn lemma_step_toward(cur: Location, t: Location)
    requires
        cur.arith_ok(),
        t.arith_ok(),
        cur.z == t.z,
        cur.x != t.x || cur.y != t.y,
    ensures
        step_toward(cur, t).arith_ok(),
        step_toward(cur, t).z == cur.z,
        step_toward(cur, t).dist(t) == cur.dist(t) - 1,
        cur.dist(t) >= 1,
        iabs(step_toward(cur, t).x as int) <= imax(iabs(cur.x as int), iabs(t.x as int)),
        iabs(step_toward(cur, t).y as int) <= imax(iabs(cur.y as int), iabs(t.y as int)),
{
}

/// Whether the ray from `cur` to `t` crosses no sight-blocking cell
/// strictly between the two, within `fuel` steps.
pub open spec fn los_clear(cells: Map<Location, Terrain>, cur: Location, t: Location, fuel: nat) -> bool
    decreases fuel,
{
    if cur == t {
        true
    } else if fuel == 0 {
        false
    } else {
        let next = step_toward(cur, t);
        if next == t {
            true
        } else {
            !terrain_at(cells, next).blocks_sight_s() && los_clear(cells, next, t, (fuel - 1) as nat)
        }
    }
}

/// With fuel at least the distance, the fuel does not matter.
pub proof fn lemma_los_fuel(
    cells: Map<Location, Terrain>,
    cur: Location,
    t: Location,
    f1: nat,
    f2: nat,
)
    requires
        cur.arith_ok(),
        t.arith_ok(),
        cur.z == t.z,
        f1 >= cur.dist(t),
        f2 >= cur.dist(t),
    ensures
        los_clear(cells, cur, t, f1) == los_clear(cells, cur, t, f2),
    decreases cur.dist(t),
{
    if cur == t {
    } else if cur.x == t.x && cur.y == t.y {
        // Same coordinates on another z-level never happens here.
        assert(cur.z == t.z);
        assert(cur == t);
    } else {
        lemma_step_toward(cur, t);
        let next = step_toward(cur, t);
        assert(f1 >= 1 && f2 >= 1);
        if next != t {
            lemma_los_fuel(cells, next, t, (f1 - 1) as nat, (f2 - 1) as nat);
        }
    }
}

/// Whether `t` is visible from `o`: on the same z-level, within range,
/// and with a clear line of sight.
pub open spec fn visible(cells: Map<Location, Terrain>, o: Location, t: Location, range: int) -> bool {
    t.z == o.z && o.dist(t) <= range && los_clear(cells, o, t, range as nat)
}

/// The set of cells visible from `o` out to `range`.
pub open spec fn fov_spec(cells: Map<Location, Terrain>, o: Location, range: int) -> Set<Location> {
    Set::new(|t: Location| visible(cells, o, t, range))
}

/// One ray step, executably.
fn step_toward_exec(cur: Location, t: Location) -> (r: Location)
    requires
        cur.arith_ok(),
        t.arith_ok(),
        cur.z == t.z,
        cur.x != t.x || cur.y != t.y,
    ensures
        r == step_toward(cur, t),
        r.arith_ok(),
        r.dist(t) == cur.dist(t) - 1,
        cur.dist(t) >= 1,
{
    proof {
        lemma_step_toward(cur, t);
    }
    let dx = t.x - cur.x;
    let dy = t.y - cur.y;
    let (sx, sy): (i32, i32) = if dx > 0 && dy > 0 {
        (1, 1)
    } else if dx < 0 && dy < 0 {
        (-1, -1)
    } else if dx > 0 {
        (1, 0)
    } else if dx < 0 {
        (-1, 0)
    } else if dy > 0 {
        (0, 1)
    } else {
        (0, -1)
    };
    Location { x: cur.x + sx, y: cur.y + sy, z: cur.z }
}

/// Whether the line of sight from `o` to `t` is clear.
fn los_exec(tm: &TerrainMap, o: Location, t: Location) -> (r: bool)
    requires
        tm.wf(),
        o.arith_ok(),
        t.arith_ok(),
        o.z == t.z,
    ensures
        r == los_clear(tm.cells@, o, t, o.dist(t) as nat),
{
    let mut cur = o;
    loop
        invariant
            tm.wf(),
            cur.arith_ok(),
            t.arith_ok(),
            cur.z == t.z,
            cur.dist(t) >= 0,
            los_clear(tm.cells@, o, t, o.dist(t) as nat) == los_clear(
                tm.cells@,
                cur,
                t,
                cur.dist(t) as nat,
            ),
        decreases cur.dist(t),
    {
        if cur.x == t.x && cur.y == t.y {
            proof {
                assert(cur == t);
            }
            return true;
        }
        let next = step_toward_exec(cur, t);
        if next.x == t.x && next.y == t.y {
            proof {
                assert(next == t);
                assert(los_clear(tm.cells@, cur, t, cur.dist(t) as nat));
            }
            return true;
        }
        if tm.at(next).blocks_sight() {
            proof {
                assert(!los_clear(tm.cells@, cur, t, cur.dist(t) as nat));
            }
            return false;
        }
        proof {
            assert(los_clear(tm.cells@, cur, t, cur.dist(t) as nat) == los_clear(
                tm.cells@,
                next,
                t,
                next.dist(t) as nat,
            ));
        }
        cur = next;
    }
}

/// The cells visible from `origin` out to `range`, each exactly once.
pub fn fov_from(tm: &TerrainMap, origin: Location, range: u32) -> (r: Vec<Location>)
    requires
        tm.wf(),
        origin.in_bounds(),
        range <= 64,
    ensures
        forall|t: Location|
            r@.contains(t) <==> fov_spec(tm.cells@, origin, range as int).contains(t),
        forall|i: int, j: int| 0 <= i < j < r@.len() ==> r@[i] != r@[j],
{
    let rad = range as i32;
    let mut out: Vec<Location> = Vec::new();
    let mut dy: i32 = -rad;
    while dy <= rad
        invariant
            tm.wf(),
            origin.in_bounds(),
            0 <= rad <= 64,
            -rad <= dy <= rad + 1,
            forall|t: Location|
                #![trigger out@.contains(t)]
                out@.contains(t) <==> (visible(tm.cells@, origin, t, rad as int) && t.y - origin.y
                    < dy),
            forall|i: int, j: int| 0 <= i < j < out@.len() ==> out@[i] != out@[j],
        decreases rad + 1 - dy,
    {
        let mut dx: i32 = -rad;
        while dx <= rad
            invariant
                tm.wf(),
                origin.in_bounds(),
                0 <= rad <= 64,
                -rad <= dy <= rad,
                -rad <= dx <= rad + 1,
                forall|t: Location|
                    #![trigger out@.contains(t)]
                    out@.contains(t) <==> (visible(tm.cells@, origin, t, rad as int) && (t.y
                        - origin.y < dy || (t.y - origin.y == dy && t.x - origin.x < dx))),
                forall|i: int, j: int| 0 <= i < j < out@.len() ==> out@[i] != out@[j],
            decreases rad + 1 - dx,
        {
            let t = origin.offset(dx, dy);
            if origin.distance(t) <= rad && los_exec(tm, origin, t) {
                proof {
                    crate::fov::lemma_los_fuel(
                        tm.cells@,
                        origin,
                        t,
                        origin.dist(t) as nat,
                        rad as nat,
                    );
                }
                let ghost out0 = out@;
                out.push(t);
                proof {
                    assert forall|u: Location|
                        #![trigger out@.contains(u)]
                        out@.contains(u) <==> (visible(tm.cells@, origin, u, rad as int) && (u.y
                            - origin.y < dy || (u.y - origin.y == dy && u.x - origin.x < dx
                            + 1))) by {
                        crate::volume::lemma_push_contains(out0, t, u);
                    }
                    assert forall|i: int, j: int|
                        0 <= i < j < out@.len() implies out@[i] != out@[j] by {
                        if j == out@.len() - 1 {
                            assert(out0.contains(out0[i]));
                        }
                    }
                }
            } else {
                proof {
                    if origin.dist(t) <= rad {
                        crate::fov::lemma_los_fuel(
                            tm.cells@,
                            origin,
                            t,
                            origin.dist(t) as nat,
                            rad as nat,
                        );
                    }
                    assert forall|u: Location|
                        #![trigger out@.contains(u)]
                        out@.contains(u) <==> (visible(tm.cells@, origin, u, rad as int) && (u.y
                            - origin.y < dy || (u.y - origin.y == dy && u.x - origin.x < dx
                            + 1))) by {}
                }
            }
            dx += 1;
        }
        proof {
            assert forall|u: Location|
                #![trigger out@.contains(u)]
                out@.contains(u) <==> (visible(tm.cells@, origin, u, rad as int) && u.y - origin.y
                    < dy + 1) by {
                if visible(tm.cells@, origin, u, rad as int) && u.y - origin.y == dy {
                    assert(iabs(u.x - origin.x) <= rad);
                }
            }
        }
        dy += 1;
    }
    proof {
        assert forall|t: Location|
            out@.contains(t) <==> fov_spec(tm.cells@, origin, rad as int).contains(t) by {
            if visible(tm.cells@, origin, t, rad as int) {
                assert(iabs(t.y - origin.y) <= rad);
            }
        }
    }
    out
}

} // verus!
