use vstd::prelude::*;

verus! {

/// Largest number of pieces along one side of a puzzle.
pub const MAX_PIECES: usize = 10000;

/// A lattice position: its row (top to bottom) and its column (left to right).
#[derive(Clone, Copy, Debug, PartialEq, Eq, PartialOrd, Ord, Hash, Structural)]
pub struct VertexIndex {
    pub row: usize,
    pub col: usize,
}

impl View for VertexIndex {
    type V = (int, int);

    open spec fn view(&self) -> (int, int) {
        (self.row as int, self.col as int)
    }
}

impl VertexIndex {
    pub fn new(row: usize, col: usize) -> (r: VertexIndex)
        ensures
            r.row == row,
            r.col == col,
    {
        VertexIndex { row, col }
    }

    /// Row-major order: by row first, then by column.
    pub fn precedes(&self, other: &VertexIndex) -> (r: bool)
        ensures
            r == before(self@, other@),
    {
        self.row < other.row || (self.row == other.row && self.col <= other.col)
    }
}

/// `a` comes no later than `b` in row-major order.
pub open spec fn before(a: (int, int), b: (int, int)) -> bool {
    a.0 < b.0 || (a.0 == b.0 && a.1 <= b.1)
}

/// The pair `{a, b}` written with its row-major smaller member first.
pub open spec fn canonical(a: (int, int), b: (int, int)) -> ((int, int), (int, int)) {
    if before(a, b) {
        (a, b)
    } else {
        (b, a)
    }
}

pub open spec fn on_grid(xp: int, yp: int, v: (int, int)) -> bool {
    0 <= v.0 <= yp && 0 <= v.1 <= xp
}

/// Position of a vertex in the row-major vertex table.
pub open spec fn flat_index(xp: int, v: (int, int)) -> int {
    v.0 * (xp + 1) + v.1
}

/// The vertex lies on the outer frame of the rectangle.
pub open spec fn on_border(xp: int, yp: int, v: (int, int)) -> bool {
    v.0 == 0 || v.0 == yp || v.1 == 0 || v.1 == xp
}

/// Two lattice positions one step apart horizontally or vertically.
pub open spec fn adjacent(a: (int, int), b: (int, int)) -> bool {
    (a.0 == b.0 && (a.1 == b.1 + 1 || b.1 == a.1 + 1)) || (a.1 == b.1 && (a.0 == b.0 + 1 || b.0
        == a.0 + 1))
}

/// `(a, b)` is an edge of the grid, written in canonical order: `b` is the right or the lower
/// neighbour of `a`.
pub open spec fn grid_edge(xp: int, yp: int, a: (int, int), b: (int, int)) -> bool {
    on_grid(xp, yp, a) && on_grid(xp, yp, b) && ((b.0 == a.0 && b.1 == a.1 + 1) || (b.0 == a.0 + 1
        && b.1 == a.1))
}

pub open spec fn vertex_count(xp: int, yp: int) -> int {
    (xp + 1) * (yp + 1)
}

pub open spec fn edge_count(xp: int, yp: int) -> int {
    (xp + 1) * yp + xp * (yp + 1)
}

/// All horizontal grid edges, row by row.
pub open spec fn horizontal_edges(xp: int, yp: int) -> Seq<((int, int), (int, int))> {
    Seq::new(((yp + 1) * xp) as nat, |i: int| ((i / xp, i % xp), (i / xp, i % xp + 1)))
}

/// All vertical grid edges, row by row.
pub open spec fn vertical_edges(xp: int, yp: int) -> Seq<((int, int), (int, int))> {
    Seq::new(
        (yp * (xp + 1)) as nat,
        |i: int| ((i / (xp + 1), i % (xp + 1)), (i / (xp + 1) + 1, i % (xp + 1))),
    )
}

/// Every edge of the grid, each once.
pub open spec fn all_edges(xp: int, yp: int) -> Seq<((int, int), (int, int))> {
    horizontal_edges(xp, yp) + vertical_edges(xp, yp)
}

/// The lattice neighbours of `v` in a fixed order: above, below, left, right, each where it
/// exists.
pub open spec fn neighbor_list(xp: int, yp: int, v: (int, int)) -> Seq<(int, int)> {
    (if v.0 > 0 {
        seq![(v.0 - 1, v.1)]
    } else {
        seq![]
    }) + (if v.0 < yp {
        seq![(v.0 + 1, v.1)]
    } else {
        seq![]
    }) + (if v.1 > 0 {
        seq![(v.0, v.1 - 1)]
    } else {
        seq![]
    }) + (if v.1 < xp {
        seq![(v.0, v.1 + 1)]
    } else {
        seq![]
    })
}

/// Rows and columns of pieces.
#[derive(Clone, Copy, Debug, PartialEq, Eq, Structural)]
pub struct Grid {
    pub x_pieces: usize,
    pub y_pieces: usize,
}

impl Grid {
    pub open spec fn wf(&self) -> bool {
        1 <= self.x_pieces <= MAX_PIECES && 1 <= self.y_pieces <= MAX_PIECES
    }

    pub open spec fn xp(&self) -> int {
        self.x_pieces as int
    }

    pub open spec fn yp(&self) -> int {
        self.y_pieces as int
    }

    pub fn vertex_count(&self) -> (r: usize)
        requires
            self.wf(),
        ensures
            r == vertex_count(self.xp(), self.yp()),
    {
        proof {
            lemma_sizes(self.xp(), self.yp());
        }
        (self.x_pieces + 1) * (self.y_pieces + 1)
    }

    pub fn index_of_vertex(&self, vi: VertexIndex) -> (r: usize)
        requires
            self.wf(),
            on_grid(self.xp(), self.yp(), vi@),
        ensures
            r == flat_index(self.xp(), vi@),
            r < vertex_count(self.xp(), self.yp()),
    {
        proof {
            lemma_flat_index_bound(self.xp(), self.yp(), vi@);
            lemma_sizes(self.xp(), self.yp());
        }
        vi.row * (self.x_pieces + 1) + vi.col
    }

    pub fn is_edge_vertex(&self, vi: VertexIndex) -> (r: bool)
        ensures
            r == on_border(self.xp(), self.yp(), vi@),
    {
        vi.row == 0 || vi.row == self.y_pieces || vi.col == 0 || vi.col == self.x_pieces
    }

    /// The lattice neighbours of `vi`: above, below, left, right, where they exist.
    pub fn neighbors(&self, vi: &VertexIndex) -> (r: Vec<VertexIndex>)
        requires
            self.wf(),
            on_grid(self.xp(), self.yp(), vi@),
        ensures
            forall|i: int|
                0 <= i < r.len() ==> on_grid(self.xp(), self.yp(), #[trigger] r@[i]@) && adjacent(
                    vi@,
                    r@[i]@,
                ),
            forall|w: (int, int)|
                on_grid(self.xp(), self.yp(), w) && #[trigger] adjacent(vi@, w) ==> exists|i: int|
                    0 <= i < r.len() && (#[trigger] r@[i])@ == w,
            forall|i: int, j: int| 0 <= i < j < r.len() ==> r@[i]@ != r@[j]@,
            r@.map_values(|w: VertexIndex| w@) == neighbor_list(self.xp(), self.yp(), vi@),
    {
        let mut neighbors: Vec<VertexIndex> = Vec::new();
        if vi.row > 0 {
            neighbors.push(VertexIndex::new(vi.row - 1, vi.col));
        }
        if vi.row < self.y_pieces {
            neighbors.push(VertexIndex::new(vi.row + 1, vi.col));
        }
        if vi.col > 0 {
            neighbors.push(VertexIndex::new(vi.row, vi.col - 1));
        }
        if vi.col < self.x_pieces {
            neighbors.push(VertexIndex::new(vi.row, vi.col + 1));
        }
        proof {
            assert(neighbors@.map_values(|w: VertexIndex| w@) =~= neighbor_list(
                self.xp(),
                self.yp(),
                vi@,
            ));
            assert forall|w: (int, int)|
                on_grid(self.xp(), self.yp(), w) && #[trigger] adjacent(vi@, w) implies exists|i: int|
                    0 <= i < neighbors.len() && (#[trigger] neighbors@[i])@ == w by {
                let up: int = if vi.row > 0 { 1 } else { 0 };
                let down: int = if vi.row < self.y_pieces { 1 } else { 0 };
                let left: int = if vi.col > 0 { 1 } else { 0 };
                if w.0 + 1 == vi.row {
                    assert(neighbors@[0]@ == w);
                } else if w.0 == vi.row + 1 {
                    assert(neighbors@[up]@ == w);
                } else if w.1 + 1 == vi.col {
                    assert(neighbors@[up + down]@ == w);
                } else {
                    assert(neighbors@[up + down + left]@ == w);
                }
            }
        }
        neighbors
    }
}

pub proof fn lemma_sizes(xp: int, yp: int)
    requires
        1 <= xp <= MAX_PIECES,
        1 <= yp <= MAX_PIECES,
    ensures
        vertex_count(xp, yp) <= (MAX_PIECES + 1) * (MAX_PIECES + 1),
        edge_count(xp, yp) <= 2 * (MAX_PIECES + 1) * (MAX_PIECES + 1),
        vertex_count(xp, yp) >= 4,
{
    assert((xp + 1) * (yp + 1) <= (MAX_PIECES + 1) * (MAX_PIECES + 1)) by (nonlinear_arith)
        requires
            1 <= xp <= MAX_PIECES,
            1 <= yp <= MAX_PIECES,
    ;
    assert((xp + 1) * yp + xp * (yp + 1) <= 2 * (MAX_PIECES + 1) * (MAX_PIECES + 1))
        by (nonlinear_arith)
        requires
            1 <= xp <= MAX_PIECES,
            1 <= yp <= MAX_PIECES,
    ;
    assert((xp + 1) * (yp + 1) >= 4) by (nonlinear_arith)
        requires
            1 <= xp,
            1 <= yp,
    ;
}

pub proof fn lemma_flat_index_bound(xp: int, yp: int, v: (int, int))
    requires
        1 <= xp,
        1 <= yp,
        on_grid(xp, yp, v),
    ensures
        0 <= flat_index(xp, v) < vertex_count(xp, yp),
{
    assert(0 <= v.0 * (xp + 1) + v.1 < (xp + 1) * (yp + 1)) by (nonlinear_arith)
        requires
            1 <= xp,
            1 <= yp,
            0 <= v.0 <= yp,
            0 <= v.1 <= xp,
    ;
}

pub proof fn lemma_flat_index_injective(xp: int, yp: int, v: (int, int), w: (int, int))
    requires
        1 <= xp,
        1 <= yp,
        on_grid(xp, yp, v),
        on_grid(xp, yp, w),
        flat_index(xp, v) == flat_index(xp, w),
    ensures
        v == w,
{
    let f = flat_index(xp, v);
    vstd::arithmetic::div_mod::lemma_fundamental_div_mod_converse(f, xp + 1, v.0, v.1);
    vstd::arithmetic::div_mod::lemma_fundamental_div_mod_converse(f, xp + 1, w.0, w.1);
}

proof fn lemma_split(i: int, d: int)
    requires
        0 <= i,
        1 <= d,
    ensures
        i == (i / d) * d + i % d,
        0 <= i % d < d,
        0 <= i / d,
{
    vstd::arithmetic::div_mod::lemma_fundamental_div_mod(i, d);
    vstd::arithmetic::div_mod::lemma_mod_pos_bound(i, d);
    vstd::arithmetic::div_mod::lemma_div_pos_is_pos(i, d);
    assert(d * (i / d) == (i / d) * d) by (nonlinear_arith);
}

proof fn lemma_row_bound(q: int, r: int, d: int, rows: int)
    requires
        0 <= r < d,
        0 <= q,
        q * d + r < rows * d,
    ensures
        q < rows,
{
    assert(q < rows) by (nonlinear_arith)
        requires
            0 <= r < d,
            0 <= q,
            q * d + r < rows * d,
    ;
}

proof fn lemma_index_in_range(q: int, r: int, d: int, rows: int)
    requires
        0 <= r < d,
        0 <= q < rows,
    ensures
        0 <= q * d + r < rows * d,
{
    assert(0 <= q * d + r < rows * d) by (nonlinear_arith)
        requires
            0 <= r < d,
            0 <= q < rows,
    ;
}

/// The listing of all grid edges holds each edge exactly once, and nothing else.
pub proof fn lemma_all_edges(xp: int, yp: int)
    requires
        1 <= xp,
        1 <= yp,
    ensures
        all_edges(xp, yp).len() == edge_count(xp, yp),
        forall|i: int|
            0 <= i < all_edges(xp, yp).len() ==> grid_edge(
                xp,
                yp,
                (#[trigger] all_edges(xp, yp)[i]).0,
                all_edges(xp, yp)[i].1,
            ),
        forall|a: (int, int), b: (int, int)|
            #[trigger] grid_edge(xp, yp, a, b) ==> all_edges(xp, yp).contains((a, b)),
        all_edges(xp, yp).no_duplicates(),
{
    let h = horizontal_edges(xp, yp);
    let v = vertical_edges(xp, yp);
    let all = all_edges(xp, yp);
    assert((yp + 1) * xp >= 0 && yp * (xp + 1) >= 0) by (nonlinear_arith)
        requires
            1 <= xp,
            1 <= yp,
    ;
    assert((yp + 1) * xp + yp * (xp + 1) == edge_count(xp, yp)) by (nonlinear_arith);
    assert forall|i: int| 0 <= i < all.len() implies grid_edge(
        xp,
        yp,
        (#[trigger] all[i]).0,
        all[i].1,
    ) by {
        if i < h.len() {
            lemma_split(i, xp);
            lemma_row_bound(i / xp, i % xp, xp, yp + 1);
            assert(all[i] == h[i]);
        } else {
            let j = i - h.len();
            lemma_split(j, xp + 1);
            lemma_row_bound(j / (xp + 1), j % (xp + 1), xp + 1, yp);
            assert(all[i] == v[j]);
        }
    }
    assert forall|a: (int, int), b: (int, int)| #[trigger]
        grid_edge(xp, yp, a, b) implies all.contains((a, b)) by {
        if b.0 == a.0 {
            let i = a.0 * xp + a.1;
            lemma_index_in_range(a.0, a.1, xp, yp + 1);
            vstd::arithmetic::div_mod::lemma_fundamental_div_mod_converse(i, xp, a.0, a.1);
            assert(all[i] == (a, b));
        } else {
            let j = a.0 * (xp + 1) + a.1;
            lemma_index_in_range(a.0, a.1, xp + 1, yp);
            vstd::arithmetic::div_mod::lemma_fundamental_div_mod_converse(j, xp + 1, a.0, a.1);
            assert(all[h.len() + j] == (a, b));
        }
    }
    assert forall|i: int, j: int| 0 <= i < all.len() && 0 <= j < all.len() && i != j implies all[i]
        != all[j] by {
        if i < h.len() && j < h.len() {
            lemma_split(i, xp);
            lemma_split(j, xp);
        } else if i >= h.len() && j >= h.len() {
            lemma_split(i - h.len(), xp + 1);
            lemma_split(j - h.len(), xp + 1);
        }
    }
}

} // verus!
