use vstd::prelude::*;
use rand::rngs::StdRng;
use crate::geom::{
    Point, UNIT, draw_offsets, in_plane_range, in_unit_range, jitter_range,
    mirrored, place,
};
use crate::text::{coord_string, coord_text};

verus! {

/// Largest jitter magnitude, in the unit frame.
pub const MAX_JITTER: i64 = 10000;

/// Which side of its segment a tab bulges toward.
#[derive(Clone, Copy, Debug, PartialEq, Eq, Structural)]
pub enum EdgePolarity {
    Left,
    Right,
}

pub open spec fn flipped(p: EdgePolarity) -> EdgePolarity {
    match p {
        EdgePolarity::Left => EdgePolarity::Right,
        EdgePolarity::Right => EdgePolarity::Left,
    }
}

/// The control points of a tab. Along with the ends of the edge, `nubbin_start` and
/// `nubbin_end` are the ends of the three Bezier curves that draw the tab; the other four are
/// their control points.
#[derive(Clone, Copy, Debug, PartialEq, Eq, Structural)]
pub struct EdgeDesc {
    pub polarity: EdgePolarity,
    pub nubbin_start: Point,
    pub nubbin_end: Point,
    pub start_control: Point,
    pub left_nubbin_control: Point,
    pub right_nubbin_control: Point,
    pub end_control: Point,
}

/// The tab in the unit frame, point by point in the order of `EdgeDesc::points`.
pub open spec fn template() -> Seq<(int, int)> {
    seq![(400, 100), (600, 100), (200, 0), (500, -100), (700, 300), (800, 0)]
}

/// How far jitter of magnitude `max` may move the `i`-th control point: the two neck points
/// move half as far as the four curve controls.
pub open spec fn reach(i: int, max: int) -> int {
    if i < 2 {
        max / 2
    } else {
        max
    }
}

pub open spec fn mirror_all(s: Seq<(int, int)>) -> Seq<(int, int)> {
    Seq::new(s.len(), |i: int| mirrored(s[i]))
}

pub open spec fn place_all(s: Seq<(int, int)>, start: (int, int), end: (int, int)) -> Seq<
    (int, int),
> {
    Seq::new(s.len(), |i: int| place(s[i], start, end))
}

/// No coordinate is larger than the unit.
pub open spec fn near_unit(p: (int, int)) -> bool {
    -UNIT <= p.0 <= UNIT && -UNIT <= p.1 <= UNIT
}

pub open spec fn printable(p: (int, int)) -> bool {
    p.0 > i64::MIN && p.1 > i64::MIN
}

impl EdgeDesc {
    pub open spec fn points(&self) -> Seq<(int, int)> {
        seq![
            self.nubbin_start@,
            self.nubbin_end@,
            self.start_control@,
            self.left_nubbin_control@,
            self.right_nubbin_control@,
            self.end_control@,
        ]
    }

    pub fn unit_edge() -> (r: EdgeDesc)
        ensures
            r.points() == template(),
            r.polarity == EdgePolarity::Left,
    {
        let r = EdgeDesc {
            polarity: EdgePolarity::Left,
            nubbin_start: Point::new(400, 100),
            nubbin_end: Point::new(600, 100),
            start_control: Point::new(200, 0),
            left_nubbin_control: Point::new(500, -100),
            right_nubbin_control: Point::new(700, 300),
            end_control: Point::new(800, 0),
        };
        assert(r.points() =~= template());
        r
    }
}

/// One edge between two lattice vertices: a straight segment, or a tab.
#[derive(Clone, Copy, Debug, PartialEq, Eq, Structural)]
pub enum Edge {
    Bumpless,
    Bumpy(EdgeDesc),
}

/// The path commands of a straight edge from `s` to `e`.
pub open spec fn plain_text(s: (int, int), e: (int, int)) -> Seq<char> {
    seq!['M', ' '] + point_text(s) + seq![' ', 'L', ' '] + point_text(e) + seq![' ']
}

/// The path commands of a tab from `s` to `e` whose control points are `c`, in the order of
/// `EdgeDesc::points`: three cubic Bezier curves.
pub open spec fn tab_text(c: Seq<(int, int)>, s: (int, int), e: (int, int)) -> Seq<char> {
    seq!['M', ' '] + point_text(s) + seq![' ', 'C', ' '] + point_text(c[2]) + seq![' ']
        + point_text(c[3]) + seq![' '] + point_text(c[0]) + seq![' ', 'S', ' '] + point_text(c[4])
        + seq![' '] + point_text(c[1]) + seq![' ', ' '] + point_text(c[5]) + seq![' '] + point_text(
        e,
    ) + seq![' ']
}

pub open spec fn edge_text(plain: bool, c: Seq<(int, int)>, s: (int, int), e: (int, int)) -> Seq<
    char,
> {
    if plain {
        plain_text(s, e)
    } else {
        tab_text(c, s, e)
    }
}

/// A point written as its two coordinates in millimetres.
#[verifier::opaque]
pub open spec fn point_text(p: (int, int)) -> Seq<char> {
    coord_text(p.0) + seq![' '] + coord_text(p.1)
}

fn append_point(r: &mut String, p: Point)
    requires
        printable(p@),
    ensures
        final(r)@ == old(r)@ + point_text(p@),
{
    let x = coord_string(p.x);
    let y = coord_string(p.y);
    proof {
        reveal_strlit(" ");
    }
    r.append(x.as_str());
    r.append(" ");
    r.append(y.as_str());
    reveal(point_text);
    assert(final(r)@ =~= old(r)@ + point_text(p@));
}

impl Edge {
    pub open spec fn is_plain(&self) -> bool {
        self is Bumpless
    }

    /// The control points; none for a straight segment.
    pub open spec fn shape(&self) -> Seq<(int, int)> {
        match self {
            Edge::Bumpless => seq![],
            Edge::Bumpy(d) => d.points(),
        }
    }

    pub fn plain() -> (r: Edge)
        ensures
            r.is_plain(),
            r.shape() == Seq::<(int, int)>::empty(),
    {
        Edge::Bumpless
    }

    pub fn nubbin() -> (r: Edge)
        ensures
            !r.is_plain(),
            r.shape() == template(),
            r->Bumpy_0.polarity == EdgePolarity::Left,
    {
        Edge::Bumpy(EdgeDesc::unit_edge())
    }

    /// Reflects a tab across its segment, so that it bulges toward the other side.
    pub fn mirror_x(&mut self)
        requires
            forall|i: int| 0 <= i < old(self).shape().len() ==> old(self).shape()[i].1 > i64::MIN,
        ensures
            final(self).is_plain() == old(self).is_plain(),
            final(self).shape() == mirror_all(old(self).shape()),
            !old(self).is_plain() ==> final(self)->Bumpy_0.polarity == flipped(
                old(self)->Bumpy_0.polarity,
            ),
    {
        match self {
            Edge::Bumpless => {
                assert(mirror_all(seq![]) =~= seq![]);
            },
            Edge::Bumpy(desc) => {
                let ghost before = desc.points();
                assert(before == old(self).shape());
                assert(before[0].1 > i64::MIN && before[1].1 > i64::MIN && before[2].1 > i64::MIN
                    && before[3].1 > i64::MIN && before[4].1 > i64::MIN && before[5].1 > i64::MIN);
                desc.polarity =
                match desc.polarity {
                    EdgePolarity::Left => EdgePolarity::Right,
                    EdgePolarity::Right => EdgePolarity::Left,
                };
                desc.nubbin_start = desc.nubbin_start.mirror_x();
                desc.nubbin_end = desc.nubbin_end.mirror_x();
                desc.start_control = desc.start_control.mirror_x();
                desc.end_control = desc.end_control.mirror_x();
                desc.left_nubbin_control = desc.left_nubbin_control.mirror_x();
                desc.right_nubbin_control = desc.right_nubbin_control.mirror_x();
                assert(desc.points() =~= mirror_all(before));
            },
        }
    }

    /// Reflects a tab when `flip` holds; leaves the edge as it is otherwise.
    pub fn mirror_if(&mut self, flip: bool)
        requires
            forall|i: int| 0 <= i < old(self).shape().len() ==> old(self).shape()[i].1 > i64::MIN,
        ensures
            !flip ==> *final(self) == *old(self),
            flip ==> final(self).is_plain() == old(self).is_plain(),
            flip ==> final(self).shape() == mirror_all(old(self).shape()),
            flip && !old(self).is_plain() ==> final(self)->Bumpy_0.polarity == flipped(
                old(self)->Bumpy_0.polarity,
            ),
    {
        if flip {
            self.mirror_x();
        }
    }

    /// Moves the `i`-th control point of a tab by `offsets[i]`, in the order of
    /// `EdgeDesc::points`; a straight edge stays as it is.
    pub fn offset_by(&mut self, offsets: &Vec<(i64, i64)>)
        requires
            offsets.len() == 6,
            forall|i: int|
                0 <= i < old(self).shape().len() ==> i64::MIN <= (#[trigger] old(self).shape()[i]).0
                    + offsets@[i].0 <= i64::MAX && i64::MIN <= old(self).shape()[i].1
                    + offsets@[i].1 <= i64::MAX,
        ensures
            final(self).is_plain() == old(self).is_plain(),
            final(self).shape().len() == old(self).shape().len(),
            forall|i: int|
                0 <= i < final(self).shape().len() ==> #[trigger] final(self).shape()[i] == (
                old(self).shape()[i].0 + offsets@[i].0,
                old(self).shape()[i].1 + offsets@[i].1,
                ),
            !old(self).is_plain() ==> final(self)->Bumpy_0.polarity == old(self)->Bumpy_0.polarity,
    {
        match self {
            Edge::Bumpless => {},
            Edge::Bumpy(desc) => {
                let ghost before = desc.points();
                assert(before == old(self).shape());
                assert(before.len() == 6);
                assert(forall|i: int|
                    0 <= i < 6 ==> i64::MIN <= #[trigger] before[i].0 + offsets@[i].0 <= i64::MAX
                        && i64::MIN <= before[i].1 + offsets@[i].1 <= i64::MAX);
                assert(i64::MIN <= before[0].0 + offsets@[0].0 <= i64::MAX);
                assert(i64::MIN <= before[1].0 + offsets@[1].0 <= i64::MAX);
                assert(i64::MIN <= before[2].0 + offsets@[2].0 <= i64::MAX);
                assert(i64::MIN <= before[3].0 + offsets@[3].0 <= i64::MAX);
                assert(i64::MIN <= before[4].0 + offsets@[4].0 <= i64::MAX);
                assert(i64::MIN <= before[5].0 + offsets@[5].0 <= i64::MAX);
                desc.nubbin_start = desc.nubbin_start.offset_by(offsets[0].0, offsets[0].1);
                desc.nubbin_end = desc.nubbin_end.offset_by(offsets[1].0, offsets[1].1);
                desc.start_control = desc.start_control.offset_by(offsets[2].0, offsets[2].1);
                desc.left_nubbin_control = desc.left_nubbin_control.offset_by(
                    offsets[3].0,
                    offsets[3].1,
                );
                desc.right_nubbin_control = desc.right_nubbin_control.offset_by(
                    offsets[4].0,
                    offsets[4].1,
                );
                desc.end_control = desc.end_control.offset_by(offsets[5].0, offsets[5].1);
            },
        }
    }

    /// Moves each control point of a tab by a random offset drawn from `-max` up to but not
    /// including `max` on each axis; the two neck points by half as much. A straight edge draws
    /// nothing.
    pub fn jitter(&mut self, max: i64, rng: &mut StdRng)
        requires
            0 <= max <= MAX_JITTER,
            forall|i: int| 0 <= i < old(self).shape().len() ==> near_unit(old(self).shape()[i]),
        ensures
            final(self).is_plain() == old(self).is_plain(),
            final(self).shape().len() == old(self).shape().len(),
            forall|i: int|
                0 <= i < final(self).shape().len() ==> jitter_range(
                    old(self).shape()[i],
                    #[trigger] final(self).shape()[i],
                    reach(i, max as int),
                ),
            !old(self).is_plain() ==> final(self)->Bumpy_0.polarity == old(self)->Bumpy_0.polarity,
    {
        if self.is_bumpy() {
            let nubbin_start = draw_offsets(max / 2, rng);
            let nubbin_end = draw_offsets(max / 2, rng);
            let start_control = draw_offsets(max, rng);
            let end_control = draw_offsets(max, rng);
            let left_nubbin_control = draw_offsets(max, rng);
            let right_nubbin_control = draw_offsets(max, rng);
            let offsets = vec![
                nubbin_start,
                nubbin_end,
                start_control,
                left_nubbin_control,
                right_nubbin_control,
                end_control,
            ];
            let ghost before = self.shape();
            assert(near_unit(before[0]) && near_unit(before[1]) && near_unit(before[2])
                && near_unit(before[3]) && near_unit(before[4]) && near_unit(before[5]));
            self.offset_by(&offsets);
            assert forall|i: int| 0 <= i < 6 implies jitter_range(
                before[i],
                #[trigger] self.shape()[i],
                reach(i, max as int),
            ) by {
                assert(offsets@[i] == seq![
                    nubbin_start,
                    nubbin_end,
                    start_control,
                    left_nubbin_control,
                    right_nubbin_control,
                    end_control,
                ][i]);
            }
        }
    }

    pub fn is_bumpy(&self) -> (r: bool)
        ensures
            r == !self.is_plain(),
    {
        match self {
            Edge::Bumpless => false,
            Edge::Bumpy(_) => true,
        }
    }

    /// Carries a tab from the unit frame onto the segment from `start` to `end`.
    pub fn transform(&mut self, start: Point, end: Point)
        requires
            forall|i: int| 0 <= i < old(self).shape().len() ==> in_unit_range(old(self).shape()[i]),
            in_plane_range(start@),
            in_plane_range(end@),
        ensures
            final(self).is_plain() == old(self).is_plain(),
            final(self).shape() == place_all(old(self).shape(), start@, end@),
            !old(self).is_plain() ==> final(self)->Bumpy_0.polarity == old(self)->Bumpy_0.polarity,
    {
        match self {
            Edge::Bumpless => {
                assert(place_all(seq![], start@, end@) =~= seq![]);
            },
            Edge::Bumpy(desc) => {
                let ghost before = desc.points();
                assert(before == old(self).shape());
                assert(in_unit_range(before[0]) && in_unit_range(before[1]) && in_unit_range(
                    before[2],
                ) && in_unit_range(before[3]) && in_unit_range(before[4]) && in_unit_range(
                    before[5],
                ));
                desc.nubbin_start = desc.nubbin_start.place_on(start, end);
                desc.nubbin_end = desc.nubbin_end.place_on(start, end);
                desc.start_control = desc.start_control.place_on(start, end);
                desc.left_nubbin_control = desc.left_nubbin_control.place_on(start, end);
                desc.right_nubbin_control = desc.right_nubbin_control.place_on(start, end);
                desc.end_control = desc.end_control.place_on(start, end);
                assert(desc.points() =~= place_all(before, start@, end@));
            },
        }
    }

    /// The path commands that draw this edge from `start` to `end`.
    pub fn svg(&self, start: Point, end: Point) -> (r: String)
        requires
            printable(start@),
            printable(end@),
            forall|i: int| 0 <= i < self.shape().len() ==> printable(#[trigger] self.shape()[i]),
        ensures
            r@ == edge_text(self.is_plain(), self.shape(), start@, end@),
    {
        match self {
            Edge::Bumpless => plain_svg(start, end),
            Edge::Bumpy(desc) => {
                assert(desc.points() == self.shape());
                tab_svg(desc, start, end)
            },
        }
    }
}

fn plain_svg(start: Point, end: Point) -> (r: String)
    requires
        printable(start@),
        printable(end@),
    ensures
        r@ == plain_text(start@, end@),
{
    proof {
        reveal_strlit("M ");
        reveal_strlit(" L ");
        reveal_strlit(" ");
    }
    let mut r = String::new();
    r.append("M ");
    assert(r@ =~= seq!['M', ' ']);
    append_point(&mut r, start);
    r.append(" L ");
    append_point(&mut r, end);
    r.append(" ");
    r
}

fn tab_svg(desc: &EdgeDesc, start: Point, end: Point) -> (r: String)
    requires
        printable(start@),
        printable(end@),
        forall|i: int| 0 <= i < desc.points().len() ==> printable(#[trigger] desc.points()[i]),
    ensures
        r@ == tab_text(desc.points(), start@, end@),
{
    let ghost c = desc.points();
    assert(printable(c[0]) && printable(c[1]) && printable(c[2]) && printable(c[3]) && printable(
        c[4],
    ) && printable(c[5]));
    proof {
        reveal_strlit("M ");
        reveal_strlit(" C ");
        reveal_strlit(" S ");
        reveal_strlit(" ");
        reveal_strlit("  ");
    }
    let mut r = String::new();
    r.append("M ");
    assert(r@ =~= seq!['M', ' ']);
    append_point(&mut r, start);
    r.append(" C ");
    append_point(&mut r, desc.start_control);
    r.append(" ");
    append_point(&mut r, desc.left_nubbin_control);
    r.append(" ");
    append_point(&mut r, desc.nubbin_start);
    r.append(" S ");
    append_point(&mut r, desc.right_nubbin_control);
    r.append(" ");
    append_point(&mut r, desc.nubbin_end);
    r.append("  ");
    append_point(&mut r, desc.end_control);
    r.append(" ");
    append_point(&mut r, end);
    r.append(" ");
    r
}

/// Mirroring a tab twice gives back the same control points.
pub proof fn law_mirror_twice(s: Seq<(int, int)>)
    ensures
        mirror_all(mirror_all(s)) == s,
{
    assert(mirror_all(mirror_all(s)) =~= s);
}

/// Mirroring a tab twice gives back its side.
pub proof fn law_flip_twice(p: EdgePolarity)
    ensures
        flipped(flipped(p)) == p,
{
}

} // verus!
