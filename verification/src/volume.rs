//! Areas of effect: sets of map cells.

use vstd::prelude::*;
use crate::location::{iabs, Location};

verus! {

/// Whether pushing `x` onto a sequence makes exactly `x` newly contained.
pub proof fn lemma_push_contains<T>(s: Seq<T>, x: T, u: T)
    ensures
        s.push(x).contains(u) <==> (s.contains(u) || u == x),
{
    if s.push(x).contains(u) {
        let i = choose|i: int| 0 <= i < s.push(x).len() && s.push(x)[i] == u;
        if i < s.len() {
            assert(s[i] == u);
        }
    }
    if s.contains(u) {
        let i = choose|i: int| 0 <= i < s.len() && s[i] == u;
        assert(s.push(x)[i] == u);
    }
    if u == x {
        assert(s.push(x)[s.len() as int] == u);
    }
}

/// The cells within a hex radius of an origin, on the origin's z-level.
pub open spec fn sphere_spec(origin: Location, radius: int) -> Set<Location> {
    Set::new(|t: Location| t.z == origin.z && origin.dist(t) <= radius)
}

/// The cells of one row of a sphere, left to right.
pub open spec fn sphere_row(origin: Location, rad: int, dy: int, dx: int) -> Seq<Location>
    decreases rad + 1 - dx when dx <= rad + 1
{
    if dx > rad {
        Seq::empty()
    } else {
        let t = origin.shifted(dx, dy);
        let rest = sphere_row(origin, rad, dy, dx + 1);
        if origin.dist(t) <= rad {
            seq![t] + rest
        } else {
            rest
        }
    }
}

/// The cells of a sphere from row `dy` down, row by row.
pub open spec fn sphere_from(origin: Location, rad: int, dy: int) -> Seq<Location>
    decreases rad + 1 - dy when dy <= rad + 1
{
    if dy > rad {
        Seq::empty()
    } else {
        sphere_row(origin, rad, dy, -rad) + sphere_from(origin, rad, dy + 1)
    }
}

/// The cells of a sphere, row by row, each left to right.
pub open spec fn sphere_cells(origin: Location, rad: int) -> Seq<Location> {
    sphere_from(origin, rad, -rad)
}

/// An area of effect: the cells it covers, in a fixed order without
/// repetition. Immutable once constructed.
pub struct Volume(pub Vec<Location>);

impl Volume {
    /// The cells are pairwise distinct.
    pub open spec fn wf(self) -> bool {
        forall|i: int, j: int| 0 <= i < j < self.0@.len() ==> self.0@[i] != self.0@[j]
    }

    /// The volume covering a single cell.
    pub fn point(loc: Location) -> (r: Volume)
        ensures
            r.0@ =~= seq![loc],
            r.wf(),
    {
        let mut v: Vec<Location> = Vec::new();
        v.push(loc);
        Volume(v)
    }

    /// The volume of all cells within `radius` of `origin`, row by row.
    pub fn sphere(origin: Location, radius: u32) -> (r: Volume)
        requires
            origin.in_bounds(),
            radius <= 64,
        ensures
            r.wf(),
            forall|t: Location| r.0@.contains(t) <==> sphere_spec(origin, radius as int).contains(t),
            r.0@ == sphere_cells(origin, radius as int),
    {
        let rad = radius as i32;
        let mut out: Vec<Location> = Vec::new();
        let mut dy: i32 = -rad;
        while dy <= rad
            invariant
                origin.in_bounds(),
                0 <= rad <= 64,
                -rad <= dy <= rad + 1,
                forall|t: Location|
                    out@.contains(t) <==> (t.z == origin.z && origin.dist(t) <= rad && t.y
                        - origin.y < dy),
                forall|i: int, j: int| 0 <= i < j < out@.len() ==> out@[i] != out@[j],
                sphere_cells(origin, rad as int) =~= out@ + sphere_from(origin, rad as int, dy as int),
            decreases rad + 1 - dy,
        {
            let mut dx: i32 = -rad;
            while dx <= rad
                invariant
                    origin.in_bounds(),
                    0 <= rad <= 64,
                    -rad <= dy <= rad,
                    -rad <= dx <= rad + 1,
                    forall|t: Location|
                        out@.contains(t) <==> (t.z == origin.z && origin.dist(t) <= rad && (t.y
                            - origin.y < dy || (t.y - origin.y == dy && t.x - origin.x < dx))),
                    forall|i: int, j: int| 0 <= i < j < out@.len() ==> out@[i] != out@[j],
                    sphere_cells(origin, rad as int) =~= out@ + sphere_row(
                        origin,
                        rad as int,
                        dy as int,
                        dx as int,
                    ) + sphere_from(origin, rad as int, dy + 1),
                decreases rad + 1 - dx,
            {
                let t = origin.offset(dx, dy);
                if origin.distance(t) <= rad {
                    let ghost out0 = out@;
                    out.push(t);
                    proof {
                        assert forall|u: Location|
                            out@.contains(u) <==> (u.z == origin.z && origin.dist(u) <= rad && (u.y
                                - origin.y < dy || (u.y - origin.y == dy && u.x - origin.x < dx
                                + 1))) by {
                            lemma_push_contains(out0, t, u);
                        }
                        assert forall|i: int, j: int|
                            0 <= i < j < out@.len() implies out@[i] != out@[j] by {
                            if j == out@.len() - 1 {
                                assert(out0.contains(out0[i]));
                            }
                        }
                    }
                } else {
                    proof {
                        assert forall|u: Location|
                            out@.contains(u) <==> (u.z == origin.z && origin.dist(u) <= rad && (u.y
                                - origin.y < dy || (u.y - origin.y == dy && u.x - origin.x < dx
                                + 1))) by {}
                    }
                }
                dx += 1;
            }
            proof {
                assert forall|u: Location|
                    out@.contains(u) <==> (u.z == origin.z && origin.dist(u) <= rad && u.y
                        - origin.y < dy + 1) by {
                    if u.z == origin.z && origin.dist(u) <= rad && u.y - origin.y == dy {
                        assert(iabs(u.x - origin.x) <= rad);
                    }
                }
            }
            dy += 1;
        }
        proof {
            assert forall|t: Location|
                out@.contains(t) <==> sphere_spec(origin, radius as int).contains(t) by {
                if t.z == origin.z && origin.dist(t) <= rad {
                    assert(iabs(t.y - origin.y) <= rad);
                }
            }
        }
        Volume(out)
    }
}

} // verus!
