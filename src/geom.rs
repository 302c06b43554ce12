use vstd::prelude::*;
use rand::rngs::StdRng;
use crate::chance::draw_in_range;

verus! {

/// Length of the canonical segment: the unit frame runs from `(0, 0)` to `(UNIT, 0)`.
pub const UNIT: i64 = 1000;

/// Largest coordinate magnitude of a placed point, in micrometres.
pub const MAX_COORD: i64 = 1000000000;

/// Largest coordinate magnitude of a point in the unit frame.
pub const MAX_UNIT_COORD: i64 = 20000;

/// A point of the plane with integer coordinates.
#[derive(Clone, Copy, Debug, Default, PartialEq, Eq, Structural)]
pub struct Point {
    pub x: i64,
    pub y: i64,
}

impl View for Point {
    type V = (int, int);

    open spec fn view(&self) -> (int, int) {
        (self.x as int, self.y as int)
    }
}

/// Floor of `v / UNIT`.
pub open spec fn div_unit(v: int) -> int {
    v / (UNIT as int)
}

/// The unit-frame point `p` placed on the segment from `s` to `e`: scaled by the segment's
/// length, turned to its direction and moved to its start. Scaling and turning together are a
/// product of complex numbers with `e - s`.
pub open spec fn place(p: (int, int), s: (int, int), e: (int, int)) -> (int, int) {
    let dx = e.0 - s.0;
    let dy = e.1 - s.1;
    (s.0 + div_unit(p.0 * dx - p.1 * dy), s.1 + div_unit(p.0 * dy + p.1 * dx))
}

pub open spec fn mirrored(p: (int, int)) -> (int, int) {
    (p.0, -p.1)
}

pub open spec fn in_unit_range(p: (int, int)) -> bool {
    -MAX_UNIT_COORD <= p.0 <= MAX_UNIT_COORD && -MAX_UNIT_COORD <= p.1 <= MAX_UNIT_COORD
}

pub open spec fn in_plane_range(p: (int, int)) -> bool {
    -MAX_COORD <= p.0 <= MAX_COORD && -MAX_COORD <= p.1 <= MAX_COORD
}

/// `q` lies at most `max` away from `p` on each axis.
pub open spec fn within(p: (int, int), q: (int, int), max: int) -> bool {
    p.0 - max <= q.0 <= p.0 + max && p.1 - max <= q.1 <= p.1 + max
}

/// Where a jitter of magnitude `max` may take `p`: from `-max` up to but not including `max` on
/// each axis, or nowhere for `max == 0`.
pub open spec fn jitter_range(p: (int, int), q: (int, int), max: int) -> bool {
    if max == 0 {
        q == p
    } else {
        p.0 - max <= q.0 < p.0 + max && p.1 - max <= q.1 < p.1 + max
    }
}

/// Two offsets drawn from `-max` up to but not including `max`; none for `max == 0`.
pub fn draw_offsets(max: i64, rng: &mut StdRng) -> (r: (i64, i64))
    requires
        0 <= max <= MAX_UNIT_COORD,
    ensures
        max == 0 ==> r == (0i64, 0i64),
        max > 0 ==> -max <= r.0 < max && -max <= r.1 < max,
{
    if max == 0 {
        (0, 0)
    } else {
        let dx = draw_in_range(rng, -max, max);
        let dy = draw_in_range(rng, -max, max);
        (dx, dy)
    }
}

fn floor_div_unit(v: i64) -> (r: i64)
    requires
        v > i64::MIN,
    ensures
        r == div_unit(v as int),
{
    if v >= 0 {
        v / UNIT
    } else {
        let q = (-v - 1) / UNIT;
        proof {
            let w = -(v as int) - 1;
            vstd::arithmetic::div_mod::lemma_fundamental_div_mod(w, UNIT as int);
            vstd::arithmetic::div_mod::lemma_mod_pos_bound(w, UNIT as int);
            vstd::arithmetic::div_mod::lemma_fundamental_div_mod_converse(
                v as int,
                UNIT as int,
                -(q as int) - 1,
                UNIT as int - 1 - w % (UNIT as int),
            );
        }
        -q - 1
    }
}

impl Point {
    pub fn new(x: i64, y: i64) -> (r: Point)
        ensures
            r@ == (x as int, y as int),
    {
        Point { x, y }
    }

    pub fn x(self) -> (r: i64)
        ensures
            r == self.x,
    {
        self.x
    }

    pub fn y(self) -> (r: i64)
        ensures
            r == self.y,
    {
        self.y
    }

    /// The reflection across the x-axis.
    pub fn mirror_x(self) -> (r: Point)
        requires
            self.y > i64::MIN,
        ensures
            r@ == mirrored(self@),
    {
        Point::new(self.x, -self.y)
    }

    pub fn translate_to(self, pt: Point) -> (r: Point)
        requires
            in_plane_range(self@),
            in_plane_range(pt@),
        ensures
            r@ == (self@.0 + pt@.0, self@.1 + pt@.1),
    {
        Point::new(self.x + pt.x, self.y + pt.y)
    }

    /// Moved by `dx` along the x-axis and `dy` along the y-axis.
    pub fn offset_by(self, dx: i64, dy: i64) -> (r: Point)
        requires
            i64::MIN <= self.x + dx <= i64::MAX,
            i64::MIN <= self.y + dy <= i64::MAX,
        ensures
            r@ == (self@.0 + dx, self@.1 + dy),
    {
        Point::new(self.x + dx, self.y + dy)
    }

    /// Scaled by `x_factor` along the x-axis and `y_factor` along the y-axis.
    pub fn scale(self, x_factor: i64, y_factor: i64) -> (r: Point)
        requires
            i64::MIN <= self.x * x_factor <= i64::MAX,
            i64::MIN <= self.y * y_factor <= i64::MAX,
        ensures
            r@ == (self@.0 * x_factor, self@.1 * y_factor),
    {
        Point::new(self.x * x_factor, self.y * y_factor)
    }

    /// Moved by a random offset on each axis, drawn from `-max` up to but not including `max`;
    /// unmoved for `max == 0`.
    pub fn jitter(self, max: i64, rng: &mut StdRng) -> (r: Point)
        requires
            in_unit_range(self@),
            0 <= max <= MAX_UNIT_COORD,
        ensures
            jitter_range(self@, r@, max as int),
    {
        let (dx, dy) = draw_offsets(max, rng);
        self.offset_by(dx, dy)
    }

    /// This unit-frame point placed on the segment from `start` to `end`.
    pub fn place_on(self, start: Point, end: Point) -> (r: Point)
        requires
            in_unit_range(self@),
            in_plane_range(start@),
            in_plane_range(end@),
        ensures
            r@ == place(self@, start@, end@),
    {
        let dx = end.x - start.x;
        let dy = end.y - start.y;
        proof {
            assert(-MAX_UNIT_COORD * 2 * MAX_COORD <= self.x * dx <= MAX_UNIT_COORD * 2 * MAX_COORD)
                by (nonlinear_arith)
                requires
                    -MAX_UNIT_COORD <= self.x <= MAX_UNIT_COORD,
                    -2 * MAX_COORD <= dx <= 2 * MAX_COORD,
            ;
            assert(-MAX_UNIT_COORD * 2 * MAX_COORD <= self.y * dy <= MAX_UNIT_COORD * 2 * MAX_COORD)
                by (nonlinear_arith)
                requires
                    -MAX_UNIT_COORD <= self.y <= MAX_UNIT_COORD,
                    -2 * MAX_COORD <= dy <= 2 * MAX_COORD,
            ;
            assert(-MAX_UNIT_COORD * 2 * MAX_COORD <= self.x * dy <= MAX_UNIT_COORD * 2 * MAX_COORD)
                by (nonlinear_arith)
                requires
                    -MAX_UNIT_COORD <= self.x <= MAX_UNIT_COORD,
                    -2 * MAX_COORD <= dy <= 2 * MAX_COORD,
            ;
            assert(-MAX_UNIT_COORD * 2 * MAX_COORD <= self.y * dx <= MAX_UNIT_COORD * 2 * MAX_COORD)
                by (nonlinear_arith)
                requires
                    -MAX_UNIT_COORD <= self.y <= MAX_UNIT_COORD,
                    -2 * MAX_COORD <= dx <= 2 * MAX_COORD,
            ;
        }
        let u = floor_div_unit(self.x * dx - self.y * dy);
        let v = floor_div_unit(self.x * dy + self.y * dx);
        proof {
            let bound = (4 * MAX_UNIT_COORD * MAX_COORD) as int;
            vstd::arithmetic::div_mod::lemma_div_is_ordered(
                -bound,
                self.x * dx - self.y * dy,
                UNIT as int,
            );
            vstd::arithmetic::div_mod::lemma_div_is_ordered(
                self.x * dx - self.y * dy,
                bound,
                UNIT as int,
            );
            vstd::arithmetic::div_mod::lemma_div_is_ordered(
                -bound,
                self.x * dy + self.y * dx,
                UNIT as int,
            );
            vstd::arithmetic::div_mod::lemma_div_is_ordered(
                self.x * dy + self.y * dx,
                bound,
                UNIT as int,
            );
        }
        Point::new(start.x + u, start.y + v)
    }
}

/// The ends of the canonical segment land on the ends of the real one.
pub proof fn law_place_fixes_ends(s: (int, int), e: (int, int))
    ensures
        place((0, 0), s, e) == s,
        place((UNIT as int, 0), s, e) == e,
{
    let dx = e.0 - s.0;
    let dy = e.1 - s.1;
    vstd::arithmetic::div_mod::lemma_fundamental_div_mod_converse(UNIT * dx, UNIT as int, dx, 0);
    vstd::arithmetic::div_mod::lemma_fundamental_div_mod_converse(UNIT * dy, UNIT as int, dy, 0);
    assert(UNIT * dx == dx * UNIT && UNIT * dy == dy * UNIT) by (nonlinear_arith);
    assert(0 * dx - 0 * dy == 0 && 0 * dy + 0 * dx == 0) by (nonlinear_arith);
    assert(UNIT * dx - 0 * dy == UNIT * dx && UNIT * dy + 0 * dx == UNIT * dy) by (nonlinear_arith);
}

/// A placed unit-frame point stays well inside the range of `i64`.
pub proof fn lemma_place_bounded(p: (int, int), s: (int, int), e: (int, int))
    requires
        in_unit_range(p),
        in_plane_range(s),
        in_plane_range(e),
    ensures
        -2 * MAX_COORD - 4 * MAX_UNIT_COORD * MAX_COORD <= place(p, s, e).0 <= 2 * MAX_COORD + 4
            * MAX_UNIT_COORD * MAX_COORD,
        -2 * MAX_COORD - 4 * MAX_UNIT_COORD * MAX_COORD <= place(p, s, e).1 <= 2 * MAX_COORD + 4
            * MAX_UNIT_COORD * MAX_COORD,
{
    let dx = e.0 - s.0;
    let dy = e.1 - s.1;
    let bound = 4 * MAX_UNIT_COORD * MAX_COORD;
    assert(-bound <= p.0 * dx - p.1 * dy <= bound && -bound <= p.0 * dy + p.1 * dx <= bound)
        by (nonlinear_arith)
        requires
            -MAX_UNIT_COORD <= p.0 <= MAX_UNIT_COORD,
            -MAX_UNIT_COORD <= p.1 <= MAX_UNIT_COORD,
            -2 * MAX_COORD <= dx <= 2 * MAX_COORD,
            -2 * MAX_COORD <= dy <= 2 * MAX_COORD,
            bound == 4 * MAX_UNIT_COORD * MAX_COORD,
    ;
    vstd::arithmetic::div_mod::lemma_div_is_ordered(-bound, p.0 * dx - p.1 * dy, UNIT as int);
    vstd::arithmetic::div_mod::lemma_div_is_ordered(p.0 * dx - p.1 * dy, bound, UNIT as int);
    vstd::arithmetic::div_mod::lemma_div_is_ordered(-bound, p.0 * dy + p.1 * dx, UNIT as int);
    vstd::arithmetic::div_mod::lemma_div_is_ordered(p.0 * dy + p.1 * dx, bound, UNIT as int);
    assert(bound / (UNIT as int) <= bound) by (nonlinear_arith)
        requires
            bound >= 0,
    ;
    assert(-bound / (UNIT as int) >= -bound) by (nonlinear_arith)
        requires
            bound >= 0,
    ;
}

} // verus!
