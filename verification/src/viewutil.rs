//! Transforms between chart space (map cells), column space and screen
//! pixels, for the layer that draws the hex map.

use vstd::prelude::*;

verus! {

pub const SCREEN_W: i32 = 640;

pub const SCREEN_H: i32 = 360;

/// Useful general constant for cell dimension ops.
pub const PIXEL_UNIT: i32 = 16;

/// Bound on the coordinates these transforms accept.
pub const VIEW_BOUND: i32 = 0x10_0000;

/// A two-dimensional integer vector.
#[derive(Clone, Copy, PartialEq, Eq, Structural, Debug)]
pub struct V2(pub i32, pub i32);

impl V2 {
    pub open spec fn small(self) -> bool {
        -VIEW_BOUND <= self.0 && self.0 <= VIEW_BOUND && -VIEW_BOUND <= self.1 && self.1
            <= VIEW_BOUND
    }
}

/// Division by the pixel unit, rounding toward zero.
pub open spec fn tdiv16(a: int) -> int {
    if a >= 0 {
        a / 16
    } else {
        -((-a) / 16)
    }
}

/// Division by two, rounding toward negative infinity.
pub fn div2_floor(a: i32) -> (r: i32)
    requires
        -0x4000_0000 <= a <= 0x4000_0000,
    ensures
        r == a as int / 2,
{
    if a >= 0 {
        ((a as u32) / 2) as i32
    } else {
        let r = -(((((-a) as u32) + 1) / 2) as i32);
        proof {
            assert(2 * (r as int) <= a < 2 * (r as int) + 2);
        }
        r
    }
}

/// Division by the pixel unit, rounding toward zero.
pub fn div_pixel_trunc(a: i32) -> (r: i32)
    requires
        -0x4000_0000 <= a <= 0x4000_0000,
    ensures
        r == tdiv16(a as int),
{
    if a >= 0 {
        ((a as u32) / 16) as i32
    } else {
        -((((-a) as u32) / 16) as i32)
    }
}

/// Transform from chart space (unit is one map cell) to view space
/// (unit is one pixel).
pub fn chart_to_view(chart_pos: V2) -> (r: V2)
    requires
        chart_pos.small(),
    ensures
        r.0 == chart_pos.0 * PIXEL_UNIT - chart_pos.1 * PIXEL_UNIT,
        r.1 == chart_pos.0 * (PIXEL_UNIT / 2) + chart_pos.1 * (PIXEL_UNIT / 2),
{
    V2(
        chart_pos.0 * PIXEL_UNIT - chart_pos.1 * PIXEL_UNIT,
        chart_pos.0 * (PIXEL_UNIT / 2) + chart_pos.1 * (PIXEL_UNIT / 2),
    )
}

/// Transform from chart space into the default on-screen space centered
/// on window center.
pub fn chart_to_screen(chart_pos: V2) -> (r: V2)
    requires
        chart_pos.small(),
    ensures
        r.0 == chart_pos.0 * PIXEL_UNIT - chart_pos.1 * PIXEL_UNIT + SCREEN_W / 2,
        r.1 == chart_pos.0 * (PIXEL_UNIT / 2) + chart_pos.1 * (PIXEL_UNIT / 2) + SCREEN_H / 2,
{
    let v = chart_to_view(chart_pos);
    V2(v.0 + SCREEN_W / 2, v.1 + SCREEN_H / 2)
}

/// Chart cell of a column space point: floor((1 + x + 2 y) / 2) on the
/// first axis and floor((1 - x) / 2) + y on the second.
pub open spec fn column_to_chart_s(cr: V2) -> V2 {
    V2(((1 + cr.0 + 2 * cr.1) / 2) as i32, ((1 - cr.0) / 2 + cr.1) as i32)
}

pub fn column_to_chart(cr: V2) -> (r: V2)
    requires
        -VIEW_BOUND - 2 <= cr.0 <= VIEW_BOUND + 2,
        -VIEW_BOUND - 2 <= cr.1 <= VIEW_BOUND + 2,
    ensures
        r == column_to_chart_s(cr),
{
    let a = div2_floor(1 + cr.0 + 2 * cr.1);
    let b = div2_floor(1 - cr.0);
    V2(a, b + cr.1)
}

/// Column space point of a pixel, for the minimum corner of a rect.
pub open spec fn min_column_s(pixel_pos: V2) -> V2 {
    V2(
        tdiv16(pixel_pos.0 - PIXEL_UNIT) as i32,
        tdiv16(pixel_pos.1 - 2 * PIXEL_UNIT) as i32,
    )
}

/// Column space point of a pixel, for the maximum corner of a rect.
pub open spec fn max_column_s(pixel_pos: V2) -> V2 {
    V2(tdiv16(pixel_pos.0 + PIXEL_UNIT) as i32, tdiv16(pixel_pos.1 + PIXEL_UNIT) as i32)
}

/// Transform to the column space point that contains the pixel space
/// point when looking for the minimum column space point. (The column
/// space rows overlap, so minimum and maximum points differ.)
pub fn pixel_to_min_column(pixel_pos: V2) -> (r: V2)
    requires
        pixel_pos.small(),
    ensures
        r == min_column_s(pixel_pos),
        r.small(),
{
    V2(div_pixel_trunc(pixel_pos.0 - PIXEL_UNIT), div_pixel_trunc(pixel_pos.1 - PIXEL_UNIT * 2))
}

/// Transform to the column space point that contains the pixel space
/// point when looking for the maximum column space point.
pub fn pixel_to_max_column(pixel_pos: V2) -> (r: V2)
    requires
        pixel_pos.small(),
    ensures
        r == max_column_s(pixel_pos),
        r.small(),
{
    V2(div_pixel_trunc(pixel_pos.0 + PIXEL_UNIT), div_pixel_trunc(pixel_pos.1 + PIXEL_UNIT))
}

/// Walks the cells of a column-space rectangle. To prevent ordering
/// artifacts, a hex column layout iterator returns each row in two
/// parts: first the upper row of hexes offset up, then the lower row.
#[derive(Clone, Copy, PartialEq, Eq, Structural, Debug)]
pub struct ColumnRectIter {
    pub x: i32,
    pub y: i32,
    pub upper_row: bool,
    pub x0: i32,
    pub x1: i32,
    pub y1: i32,
}

/// The iterator a column-space rectangle starts with.
pub open spec fn start_iter(min: V2, max: V2) -> ColumnRectIter {
    ColumnRectIter {
        x: min.0,
        y: min.1,
        upper_row: min.0 % 2 == 0,
        x0: min.0,
        x1: max.0,
        y1: max.1,
    }
}

/// One step of the column walk: what it yields and the state after.
pub open spec fn walk_next(it: ColumnRectIter) -> (ColumnRectIter, Option<V2>) {
    if it.y >= it.y1 {
        (it, None::<V2>)
    } else {
        let yielded = Some(V2(it.x, it.y));
        if it.x + 2 >= it.x1 {
            // A negative start column never counts as odd, as in
            // truncating remainder arithmetic.
            let odd_start = it.x0 >= 0 && it.x0 % 2 == 1;
            let xr: i32 = if odd_start != !it.upper_row {
                (it.x0 + 1) as i32
            } else {
                it.x0
            };
            if it.upper_row {
                (ColumnRectIter { x: xr, upper_row: false, ..it }, yielded)
            } else {
                (
                    ColumnRectIter { x: xr, y: (it.y + 1) as i32, upper_row: true, ..it },
                    yielded,
                )
            }
        } else {
            (ColumnRectIter { x: (it.x + 2) as i32, ..it }, yielded)
        }
    }
}

/// Steps left in a walk, at most.
pub open spec fn walk_measure(it: ColumnRectIter) -> int {
    (if it.y1 >= it.y {
        (it.y1 - it.y) as int
    } else {
        0int
    }) * 0x100_0000 + (if it.upper_row {
        1int
    } else {
        0int
    }) * 0x40_0000 + (if it.x1 >= it.x {
        (it.x1 - it.x) as int
    } else {
        0int
    })
}

/// A yielding step shrinks the measure and keeps the state small.
pub proof fn lemma_walk_step(it: ColumnRectIter)
    requires
        it.small(),
        it.y < it.y1,
    ensures
        walk_next(it).0.small(),
        0 <= walk_measure(walk_next(it).0) < walk_measure(it),
{
}

/// The columns a walk yields, within a fuel bound.
pub open spec fn walk_cells(it: ColumnRectIter, fuel: nat) -> Seq<V2>
    decreases fuel,
{
    if fuel == 0 {
        Seq::empty()
    } else {
        match walk_next(it).1 {
            None => Seq::<V2>::empty(),
            Some(c) => seq![c] + walk_cells(walk_next(it).0, (fuel - 1) as nat),
        }
    }
}

/// With fuel at least the measure, the fuel does not matter.
pub proof fn lemma_walk_fuel(it: ColumnRectIter, f1: nat, f2: nat)
    requires
        it.small(),
        f1 >= walk_measure(it),
        f2 >= walk_measure(it),
    ensures
        walk_cells(it, f1) == walk_cells(it, f2),
    decreases walk_measure(it),
{
    if it.y >= it.y1 {
        assert(walk_cells(it, f1) =~= walk_cells(it, f2));
    } else {
        lemma_walk_step(it);
        assert(walk_measure(it) >= 1);
        lemma_walk_fuel(walk_next(it).0, (f1 - 1) as nat, (f2 - 1) as nat);
    }
}

/// The chart cells of the columns of a view rectangle, in walk order.
pub open spec fn view_rect_cells(rect_min: V2, rect_max: V2) -> Seq<V2> {
    let it0 = start_iter(min_column_s(rect_min), max_column_s(rect_max));
    walk_cells(it0, walk_measure(it0) as nat).map_values(|c: V2| column_to_chart_s(c))
}

/// The column space point whose chart cell a chart position is.
pub open spec fn chart_to_column_s(p: V2) -> V2 {
    V2((p.0 - p.1) as i32, (p.1 - (1 - (p.0 - p.1)) / 2) as i32)
}

/// Law: chart and column space are in bijection — every chart position
/// is the chart cell of exactly its column space point.
pub proof fn lemma_column_chart_inverse(p: V2)
    requires
        -VIEW_BOUND <= p.0 <= VIEW_BOUND,
        -VIEW_BOUND <= p.1 <= VIEW_BOUND,
    ensures
        column_to_chart_s(chart_to_column_s(p)) == p,
{
    let cx: int = p.0 - p.1;
    let a: int = 1 - cx;
    let q: int = a / 2;
    let r: int = a % 2;
    assert(a == 2 * q + r);
    assert(0 <= r < 2);
    let cy: int = p.1 - q;
    assert(chart_to_column_s(p) == V2(cx as i32, cy as i32));
    assert(1 + cx + 2 * cy == 2 * p.0 + r);
    assert((2 * p.0 + r) / 2 == p.0);
}

/// The column the second pass of a row starts at.
pub open spec fn lower_pass_start(it: ColumnRectIter) -> int {
    it.x0 + (if it.x0 >= 0 && it.x0 % 2 == 1 {
        1int
    } else {
        0int
    })
}

/// Whether the walk from this state still has the column ahead of it:
/// the column sits in a later row, or later in the running pass, or in
/// the row's still-pending second pass.
pub open spec fn walk_ahead(it: ColumnRectIter, c: V2) -> bool {
    ||| c.1 > it.y
    ||| (c.1 == it.y && c.0 >= it.x && (c.0 - it.x) % 2 == 0)
    ||| (c.1 == it.y && it.upper_row && (c.0 - lower_pass_start(it)) % 2 == 0)
}

/// Law: the walk yields every column of its box that is still ahead,
/// out to the row before the last.
pub proof fn lemma_walk_covers(it: ColumnRectIter, c: V2, fuel: nat)
    requires
        it.small(),
        fuel >= walk_measure(it),
        it.y < it.y1,
        it.x0 <= c.0 < it.x1,
        c.1 < it.y1,
        walk_ahead(it, c),
    ensures
        walk_cells(it, fuel).contains(c),
    decreases walk_measure(it),
{
    lemma_walk_step(it);
    let it2 = walk_next(it).0;
    let h = V2(it.x, it.y);
    let tail = walk_cells(it2, (fuel - 1) as nat);
    assert(walk_cells(it, fuel) == seq![h] + tail);
    if c == h {
        assert(walk_cells(it, fuel)[0] == c);
        assert(walk_cells(it, fuel).contains(c));
    } else {
        // The column is still ahead of the next state.
        if it.x + 2 >= it.x1 {
            if c.1 == it.y && c.0 >= it.x && (c.0 - it.x) % 2 == 0 {
                // Nothing of this parity is left in the pass.
                assert(c.0 < it.x + 2);
                assert(c.0 == it.x);
                assert(false);
            }
            if it.upper_row {
                // The row's second pass begins.
                if c.1 == it.y {
                    assert((c.0 - lower_pass_start(it)) % 2 == 0);
                    assert(it2.x == lower_pass_start(it));
                    assert(c.0 >= it2.x);
                }
                assert(walk_ahead(it2, c));
            } else {
                // The next row begins; its two passes start on the two
                // parities.
                assert(c.1 > it.y);
                assert(it2.y == it.y + 1);
                if c.1 == it2.y {
                    assert(it2.x + lower_pass_start(it2) == 2 * it.x0 + 1);
                    if (c.0 - it2.x) % 2 != 0 {
                        assert((c.0 - lower_pass_start(it2)) % 2 == 0) by (nonlinear_arith)
                            requires
                                (c.0 - it2.x) % 2 != 0,
                                it2.x + lower_pass_start(it2) == 2 * it.x0 + 1,
                                -VIEW_BOUND <= c.0 <= VIEW_BOUND,
                                -VIEW_BOUND <= it2.x <= VIEW_BOUND + 2,
                                -VIEW_BOUND <= it.x0 <= VIEW_BOUND;
                    } else {
                        assert(c.0 >= it.x0);
                        if it2.x == it.x0 + 1 {
                            assert(c.0 != it.x0);
                        }
                        assert(c.0 >= it2.x);
                    }
                }
                assert(walk_ahead(it2, c));
                assert(it2.y < it.y1);
            }
        } else {
            assert(it2.x == it.x + 2);
            if c.1 == it.y && c.0 >= it.x && (c.0 - it.x) % 2 == 0 {
                assert(c.0 >= it.x + 2);
            }
            assert(walk_ahead(it2, c));
        }
        lemma_walk_covers(it2, c, (fuel - 1) as nat);
        let j = choose|j: int| 0 <= j < tail.len() && tail[j] == c;
        assert(walk_cells(it, fuel)[j + 1] == c);
        assert(walk_cells(it, fuel).contains(c));
    }
}

/// Law: a view rectangle's cell list covers its column box. Every
/// column between the rectangle's corner columns, on a row strictly
/// inside, has its chart cell in the list.
pub proof fn lemma_view_rect_coverage(rect_min: V2, rect_max: V2, c: V2)
    requires
        rect_min.small(),
        rect_max.small(),
        min_column_s(rect_min).0 <= c.0 < max_column_s(rect_max).0,
        min_column_s(rect_min).1 < c.1 < max_column_s(rect_max).1,
    ensures
        view_rect_cells(rect_min, rect_max).contains(column_to_chart_s(c)),
{
    let lo = min_column_s(rect_min);
    let hi = max_column_s(rect_max);
    let it0 = start_iter(lo, hi);
    assert(it0.small());
    lemma_walk_covers(it0, c, walk_measure(it0) as nat);
    let cols = walk_cells(it0, walk_measure(it0) as nat);
    let j = choose|j: int| 0 <= j < cols.len() && cols[j] == c;
    assert(view_rect_cells(rect_min, rect_max)[j] == column_to_chart_s(c));
    assert(view_rect_cells(rect_min, rect_max).contains(column_to_chart_s(c)));
}

impl ColumnRectIter {
    pub open spec fn small(self) -> bool {
        -VIEW_BOUND <= self.x && self.x <= VIEW_BOUND + 2 && -VIEW_BOUND <= self.x0 && self.x0
            <= VIEW_BOUND && -VIEW_BOUND <= self.x1 && self.x1 <= VIEW_BOUND && -VIEW_BOUND
            <= self.y && self.y <= VIEW_BOUND && -VIEW_BOUND <= self.y1 && self.y1 <= VIEW_BOUND
    }

    /// Start a walk over the columns of a rectangle.
    pub fn new(min: V2, max: V2) -> (r: ColumnRectIter)
        requires
            min.small(),
            max.small(),
        ensures
            r == start_iter(min, max),
            r.small(),
    {
        let even = if min.0 >= 0 {
            (min.0 as u32) % 2 == 0
        } else {
            ((-min.0) as u32) % 2 == 0
        };
        ColumnRectIter { x: min.0, y: min.1, upper_row: even, x0: min.0, x1: max.0, y1: max.1 }
    }

    /// The next column position, or nothing once the rows are spent.
    pub fn next(&mut self) -> (r: Option<V2>)
        requires
            old(self).small(),
        ensures
            *final(self) == walk_next(*old(self)).0,
            r == walk_next(*old(self)).1,
            final(self).small(),
    {
        if self.y >= self.y1 {
            return None;
        }
        let ret = Some(V2(self.x, self.y));
        self.x = self.x + 2;

        if self.x >= self.x1 {
            // As in truncating remainder arithmetic, a negative start
            // column never counts as odd here.
            let odd_start = if self.x0 >= 0 {
                (self.x0 as u32) % 2 == 1
            } else {
                false
            };
            self.x = self.x0 + (if odd_start != !self.upper_row {
                1
            } else {
                0
            });
            if self.upper_row {
                self.upper_row = false;
            } else {
                self.y = self.y + 1;
                self.upper_row = true;
            }
        }
        ret
    }
}

/// The chart positions of the columns of a view rectangle, in the
/// order the column walk yields them. `lemma_view_rect_coverage` shows
/// the list covers the rectangle's column box, and
/// `lemma_column_chart_inverse` that every chart position is reached
/// through exactly its own column.
pub fn cells_in_view_rect(rect_min: V2, rect_max: V2) -> (r: Vec<V2>)
    requires
        rect_min.small(),
        rect_max.small(),
    ensures
        r@ == view_rect_cells(rect_min, rect_max),
{
    let lo = pixel_to_min_column(rect_min);
    let hi = pixel_to_max_column(rect_max);
    let mut it = ColumnRectIter::new(lo, hi);
    let ghost it0 = it;
    let ghost total = walk_cells(it0, walk_measure(it0) as nat).map_values(
        |c: V2| column_to_chart_s(c),
    );
    let mut out: Vec<V2> = Vec::new();
    loop
        invariant
            it.small(),
            total == view_rect_cells(rect_min, rect_max),
            total =~= out@ + walk_cells(it, walk_measure(it) as nat).map_values(
                |c: V2| column_to_chart_s(c),
            ),
        decreases walk_measure(it),
    {
        let ghost pre = it;
        match it.next() {
            Some(c) => {
                proof {
                    lemma_walk_step(pre);
                    lemma_walk_fuel(
                        it,
                        (walk_measure(pre) - 1) as nat,
                        walk_measure(it) as nat,
                    );
                    assert(walk_cells(pre, walk_measure(pre) as nat) =~= seq![c] + walk_cells(
                        it,
                        walk_measure(it) as nat,
                    ));
                    assert((seq![c] + walk_cells(it, walk_measure(it) as nat)).map_values(
                        |u: V2| column_to_chart_s(u),
                    ) =~= seq![column_to_chart_s(c)] + walk_cells(
                        it,
                        walk_measure(it) as nat,
                    ).map_values(|u: V2| column_to_chart_s(u)));
                }
                out.push(column_to_chart(c));
                proof {
                    assert(total =~= out@ + walk_cells(it, walk_measure(it) as nat).map_values(
                        |u: V2| column_to_chart_s(u),
                    ));
                }
            },
            None => {
                proof {
                    assert(walk_cells(pre, walk_measure(pre) as nat) =~= Seq::<V2>::empty());
                    assert(total =~= out@);
                }
                return out;
            },
        }
    }
}

/// The chart positions of the columns covering the whole screen.
pub fn cells_on_screen() -> (r: Vec<V2>)
    ensures
        r@ == view_rect_cells(
            V2((-SCREEN_W / 2) as i32, (-SCREEN_H / 2) as i32),
            V2((SCREEN_W / 2) as i32, (SCREEN_H / 2) as i32),
        ),
{
    cells_in_view_rect(V2(-SCREEN_W / 2, -SCREEN_H / 2), V2(SCREEN_W / 2, SCREEN_H / 2))
}

} // verus!
