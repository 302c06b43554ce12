use vstd::prelude::*;
use rand::rngs::StdRng;
use crate::chance::draw_bool;
use crate::edge::{
    Edge, EdgePolarity, MAX_JITTER, edge_text, mirror_all, near_unit, place_all, printable, reach,
    template,
};
use crate::geom::{
    MAX_COORD, Point, in_plane_range, in_unit_range, jitter_range, lemma_place_bounded, within,
};
use crate::graph::{edge_views, gen_edges};
use crate::grid::{
    Grid, MAX_PIECES, VertexIndex, adjacent, canonical, edge_count, flat_index, grid_edge, lemma_flat_index_bound,
    on_border, on_grid, vertex_count,
};
use crate::text::{coord_string, coord_text};

verus! {

/// Largest jitter, in percent of a piece's side.
pub const MAX_JITTER_PCT: u64 = 1000;

/// Jitter used when none is given, in percent of a piece's side.
pub const DEFAULT_JITTER_PCT: u64 = 10;

/// Why a puzzle cannot be built from a configuration.
#[derive(Clone, Copy, Debug, PartialEq, Eq, Structural)]
pub enum ConfigError {
    /// No pieces along one side.
    ZeroPieces,
    /// The puzzle has no width or no height.
    ZeroSize,
    /// More than `MAX_PIECES` pieces along a side, a side longer than `MAX_COORD`
    /// micrometres, or jitter above `MAX_JITTER_PCT`.
    OutOfRange,
}

/// The configuration of a puzzle: its size in micrometres, its pieces along each side and the
/// jitter of its tabs in percent of a piece's side.
#[derive(Clone, Copy, Debug, PartialEq, Eq, Structural)]
pub struct Builder {
    pub x_um: u64,
    pub y_um: u64,
    pub x_pieces: usize,
    pub y_pieces: usize,
    pub jitter_pct: u64,
}

/// The error that a configuration gives, if any.
pub open spec fn config_error(b: Builder) -> Option<ConfigError> {
    if b.x_pieces == 0 || b.y_pieces == 0 {
        Some(ConfigError::ZeroPieces)
    } else if b.x_um == 0 || b.y_um == 0 {
        Some(ConfigError::ZeroSize)
    } else if b.x_pieces > MAX_PIECES || b.y_pieces > MAX_PIECES || b.x_um > MAX_COORD || b.y_um
        > MAX_COORD || b.jitter_pct > MAX_JITTER_PCT {
        Some(ConfigError::OutOfRange)
    } else {
        None
    }
}

/// Where the lattice vertex `v` lies: columns and rows evenly spaced over the size.
pub open spec fn vertex_pos(x_um: int, y_um: int, xp: int, yp: int, v: (int, int)) -> (int, int) {
    (v.1 * x_um / xp, v.0 * y_um / yp)
}

/// The control points that a tab starts from before jitter: the template, reflected for a tab
/// that bulges to the right.
pub open spec fn base_shape(p: EdgePolarity) -> Seq<(int, int)> {
    match p {
        EdgePolarity::Left => template(),
        EdgePolarity::Right => mirror_all(template()),
    }
}

/// A straight edge, or a tab whose control points lie within jitter `max` of its base shape.
pub open spec fn shaped(e: Edge, max: int) -> bool {
    !e.is_plain() ==> e.shape().len() == 6 && forall|k: int|
        0 <= k < 6 ==> within(
            base_shape(e->Bumpy_0.polarity)[k],
            #[trigger] e.shape()[k],
            reach(k, max),
        )
}

/// A jigsaw puzzle: its size in micrometres, its grid of pieces, the position of every lattice
/// vertex and one edge for every pair of neighbouring vertices. Tabs are kept in the unit frame
/// and placed on their segment when drawn.
pub struct Puzzle {
    x_um: i64,
    y_um: i64,
    grid: Grid,
    jitter: i64,
    vertices: Vec<Point>,
    edges: Vec<((VertexIndex, VertexIndex), Edge)>,
}

impl Builder {
    pub open spec fn new_spec() -> Builder {
        Builder { x_um: 0, y_um: 0, x_pieces: 0, y_pieces: 0, jitter_pct: DEFAULT_JITTER_PCT }
    }

    /// No size and no pieces yet, default jitter.
    pub fn new() -> (r: Builder)
        ensures
            r == Builder::new_spec(),
    {
        Builder { x_um: 0, y_um: 0, x_pieces: 0, y_pieces: 0, jitter_pct: DEFAULT_JITTER_PCT }
    }

    /// Sets the width and height, in micrometres.
    pub fn size(self, x: u64, y: u64) -> (r: Builder)
        ensures
            r == (Builder { x_um: x, y_um: y, ..self }),
    {
        Builder { x_um: x, y_um: y, ..self }
    }

    /// Sets the number of pieces across and from top to bottom.
    pub fn pieces(self, x: usize, y: usize) -> (r: Builder)
        ensures
            r == (Builder { x_pieces: x, y_pieces: y, ..self }),
    {
        Builder { x_pieces: x, y_pieces: y, ..self }
    }

    /// Sets how far tabs are jittered, in percent of a piece's side.
    pub fn vertex_jitter_pct(self, pct: u64) -> (r: Builder)
        ensures
            r == (Builder { jitter_pct: pct, ..self }),
    {
        Builder { jitter_pct: pct, ..self }
    }

    /// Builds the puzzle, drawing the jitter and the side of each tab from `rng`.
    pub fn build(self, rng: &mut StdRng) -> (r: Result<Puzzle, ConfigError>)
        ensures
            match r {
                Ok(p) => config_error(self) is None && p.wf() && p.built_from(self),
                Err(e) => config_error(self) == Some(e),
            },
    {
        Puzzle::build(&self, rng)
    }
}

impl Puzzle {
    pub closed spec fn x_um(&self) -> int {
        self.x_um as int
    }

    pub closed spec fn y_um(&self) -> int {
        self.y_um as int
    }

    pub closed spec fn xp(&self) -> int {
        self.grid.xp()
    }

    pub closed spec fn yp(&self) -> int {
        self.grid.yp()
    }

    /// The jitter magnitude in the unit frame.
    pub closed spec fn jitter(&self) -> int {
        self.jitter as int
    }

    /// The positions of the lattice vertices, row by row.
    pub closed spec fn vertices(&self) -> Seq<(int, int)> {
        self.vertices@.map_values(|p: Point| p@)
    }

    /// The vertex pairs that the edges join, in the order they were made.
    pub closed spec fn keys(&self) -> Seq<((int, int), (int, int))> {
        edge_views(self.edges@.map_values(|e: ((VertexIndex, VertexIndex), Edge)| e.0))
    }

    /// The edges, in the order they were made.
    pub closed spec fn edges(&self) -> Seq<Edge> {
        self.edges@.map_values(|e: ((VertexIndex, VertexIndex), Edge)| e.1)
    }

    pub open spec fn built_from(&self, b: Builder) -> bool {
        &&& self.x_um() == b.x_um
        &&& self.y_um() == b.y_um
        &&& self.xp() == b.x_pieces
        &&& self.yp() == b.y_pieces
        &&& self.jitter() == b.jitter_pct * 10
    }

    /// What every built puzzle satisfies.
    pub open spec fn wf(&self) -> bool {
        let (xp, yp) = (self.xp(), self.yp());
        &&& 1 <= xp <= MAX_PIECES && 1 <= yp <= MAX_PIECES
        &&& 1 <= self.x_um() <= MAX_COORD && 1 <= self.y_um() <= MAX_COORD
        &&& 0 <= self.jitter() <= MAX_JITTER
        &&& self.vertices().len() == vertex_count(xp, yp)
        &&& forall|v: (int, int)|
            on_grid(xp, yp, v) ==> #[trigger] self.vertices()[flat_index(xp, v)] == vertex_pos(
                self.x_um(),
                self.y_um(),
                xp,
                yp,
                v,
            )
        &&& self.keys().len() == self.edges().len()
        &&& self.keys().len() == edge_count(xp, yp)
        &&& self.keys().no_duplicates()
        &&& forall|i: int|
            0 <= i < self.keys().len() ==> grid_edge(
                xp,
                yp,
                (#[trigger] self.keys()[i]).0,
                self.keys()[i].1,
            )
        &&& forall|a: (int, int), b: (int, int)| #[trigger]
            grid_edge(xp, yp, a, b) ==> self.keys().contains((a, b))
        &&& forall|i: int|
            0 <= i < self.edges().len() ==> (#[trigger] self.edges()[i]).is_plain() == (on_border(
                xp,
                yp,
                self.keys()[i].0,
            ) && on_border(xp, yp, self.keys()[i].1))
        &&& forall|i: int|
            0 <= i < self.edges().len() ==> shaped(#[trigger] self.edges()[i], self.jitter())
    }
}

/// Opens the image: its viewport is the puzzle's size in millimetres.
pub open spec fn header_text(x_um: int, y_um: int) -> Seq<char> {
    "<svg xmlns=\"http://www.w3.org/2000/svg\" version=\"1.0\" viewBox=\"0 0 "@ + coord_text(x_um)
        + " "@ + coord_text(y_um) + "\" style=\"margin: 1em;\" width=\""@ + coord_text(x_um)
        + "mm\" height=\""@ + coord_text(y_um)
        + "mm\" >\n<path fill=\"none\" stroke=\"black\" stroke-width=\"0.1\" d=\""@
}

/// Closes the path and the image.
pub open spec fn footer_text() -> Seq<char> {
    "\"></path>\n</svg>"@
}

impl Puzzle {
    /// The commands of the `i`-th edge, placed between its two vertices.
    pub open spec fn drawn_edge(&self, i: int) -> Seq<char> {
        let s = self.vertices()[flat_index(self.xp(), self.keys()[i].0)];
        let e = self.vertices()[flat_index(self.xp(), self.keys()[i].1)];
        let edge = self.edges()[i];
        edge_text(edge.is_plain(), place_all(edge.shape(), s, e), s, e)
    }

    /// The commands of the first `k` edges, one line each.
    pub open spec fn paths_text(&self, k: int) -> Seq<char>
        decreases k,
    {
        if k <= 0 {
            seq![]
        } else {
            self.paths_text(k - 1) + self.drawn_edge(k - 1) + seq!['\n']
        }
    }

    /// The whole image: one path that draws every edge.
    pub open spec fn svg_text(&self) -> Seq<char> {
        header_text(self.x_um(), self.y_um()) + self.paths_text(self.edges().len() as int)
            + footer_text()
    }
}

proof fn lemma_earlier_index(xp: int, v: (int, int), y: int, x: int)
    requires
        0 <= v.1 <= xp,
        0 <= v.0,
        0 <= x,
        v.0 < y || (v.0 == y && v.1 < x),
    ensures
        flat_index(xp, v) < y * (xp + 1) + x,
{
    if v.0 < y {
        assert(v.0 * (xp + 1) + v.1 < y * (xp + 1) + x) by (nonlinear_arith)
            requires
                0 <= v.1 <= xp,
                0 <= v.0 < y,
                0 <= x,
        ;
    }
}

proof fn lemma_spacing(k: int, n: int, size: int)
    requires
        0 <= k <= n,
        1 <= n <= MAX_PIECES,
        0 <= size <= MAX_COORD,
    ensures
        0 <= k * size / n <= size,
        0 <= k * size <= MAX_PIECES * MAX_COORD,
{
    assert(0 <= k * size <= n * size && n * size <= MAX_PIECES * MAX_COORD && n * size == size * n)
        by (nonlinear_arith)
        requires
            0 <= k <= n,
            1 <= n <= MAX_PIECES,
            0 <= size <= MAX_COORD,
    ;
    vstd::arithmetic::div_mod::lemma_div_is_ordered(k * size, n * size, n);
    vstd::arithmetic::div_mod::lemma_div_pos_is_pos(k * size, n);
    vstd::arithmetic::div_mod::lemma_fundamental_div_mod_converse(n * size, n, size, 0);
}

/// The lattice vertices, row by row, evenly spaced over `x_um` by `y_um`.
fn gen_vertices(grid: &Grid, x_um: i64, y_um: i64) -> (r: Vec<Point>)
    requires
        grid.wf(),
        1 <= x_um <= MAX_COORD,
        1 <= y_um <= MAX_COORD,
    ensures
        r@.len() == vertex_count(grid.xp(), grid.yp()),
        forall|v: (int, int)|
            on_grid(grid.xp(), grid.yp(), v) ==> (#[trigger] r@[flat_index(grid.xp(), v)])@
                == vertex_pos(x_um as int, y_um as int, grid.xp(), grid.yp(), v),
{
    let ghost xp = grid.xp();
    let ghost yp = grid.yp();
    let mut vertices: Vec<Point> = Vec::new();
    let mut y: usize = 0;
    while y <= grid.y_pieces
        invariant
            grid.wf(),
            xp == grid.xp(),
            yp == grid.yp(),
            1 <= x_um <= MAX_COORD,
            1 <= y_um <= MAX_COORD,
            y <= yp + 1,
            vertices@.len() == y * (xp + 1),
            forall|v: (int, int)|
                on_grid(xp, yp, v) && v.0 < y ==> (#[trigger] vertices@[flat_index(xp, v)])@
                    == vertex_pos(x_um as int, y_um as int, xp, yp, v),
        decreases yp + 1 - y,
    {
        let mut x: usize = 0;
        while x <= grid.x_pieces
            invariant
                grid.wf(),
                xp == grid.xp(),
                yp == grid.yp(),
                1 <= x_um <= MAX_COORD,
                1 <= y_um <= MAX_COORD,
                y <= yp,
                x <= xp + 1,
                vertices@.len() == y * (xp + 1) + x,
                forall|v: (int, int)|
                    on_grid(xp, yp, v) && (v.0 < y || (v.0 == y && v.1 < x)) ==> (
                    #[trigger] vertices@[flat_index(xp, v)])@ == vertex_pos(
                        x_um as int,
                        y_um as int,
                        xp,
                        yp,
                        v,
                    ),
            decreases xp + 1 - x,
        {
            proof {
                lemma_spacing(x as int, xp, x_um as int);
                lemma_spacing(y as int, yp, y_um as int);
            }
            let px = (x as i64) * x_um / (grid.x_pieces as i64);
            let py = (y as i64) * y_um / (grid.y_pieces as i64);
            let ghost before = vertices@;
            vertices.push(Point::new(px, py));
            proof {
                assert forall|v: (int, int)|
                    on_grid(xp, yp, v) && (v.0 < y || (v.0 == y && v.1 < x + 1)) implies (
                    #[trigger] vertices@[flat_index(xp, v)])@ == vertex_pos(
                        x_um as int,
                        y_um as int,
                        xp,
                        yp,
                        v,
                    ) by {
                    if v.0 == y && v.1 == x {
                        assert(flat_index(xp, v) == y * (xp + 1) + x);
                    } else {
                        lemma_earlier_index(xp, v, y as int, x as int);
                        assert(vertices@[flat_index(xp, v)] == before[flat_index(xp, v)]);
                    }
                }
            }
            x = x + 1;
        }
        proof {
            assert(y * (xp + 1) + (xp + 1) == (y + 1) * (xp + 1)) by (nonlinear_arith);
        }
        y = y + 1;
    }
    proof {
        assert((yp + 1) * (xp + 1) == (xp + 1) * (yp + 1)) by (nonlinear_arith);
    }
    vertices
}

/// The edge between neighbours `a` and `b`: straight when both lie on the outer frame, else a
/// tab jittered by `jitter` and, on a coin toss, reflected.
fn shape_edge(grid: &Grid, jitter: i64, rng: &mut StdRng, a: VertexIndex, b: VertexIndex) -> (r:
    Edge)
    requires
        0 <= jitter <= MAX_JITTER,
    ensures
        r.is_plain() == (on_border(grid.xp(), grid.yp(), a@) && on_border(grid.xp(), grid.yp(), b@)),
        shaped(r, jitter as int),
{
    let along = grid.is_edge_vertex(a) && grid.is_edge_vertex(b);
    let mut edge = if along {
        Edge::plain()
    } else {
        Edge::nubbin()
    };
    let ghost unit = edge;
    assert(forall|k: int|
        0 <= k < edge.shape().len() ==> near_unit(#[trigger] edge.shape()[k])) by {
        if !along {
            assert(near_unit(template()[0]) && near_unit(template()[1]) && near_unit(
                template()[2],
            ) && near_unit(template()[3]) && near_unit(template()[4]) && near_unit(
                template()[5],
            ));
        }
    }
    edge.jitter(jitter, rng);
    let ghost jittered = edge;
    assert(forall|k: int|
        0 <= k < edge.shape().len() ==> in_unit_range(#[trigger] edge.shape()[k])) by {
        if !along {
            assert forall|k: int| 0 <= k < edge.shape().len() implies in_unit_range(
                #[trigger] edge.shape()[k],
            ) by {
                assert(jitter_range(unit.shape()[k], edge.shape()[k], reach(k, jitter as int)));
                assert(near_unit(unit.shape()[k]));
            }
        }
    }
    let flip = draw_bool(rng);
    edge.mirror_if(flip);
    proof {
        if !along {
            assert forall|k: int| 0 <= k < 6 implies within(
                base_shape(edge->Bumpy_0.polarity)[k],
                #[trigger] edge.shape()[k],
                reach(k, jitter as int),
            ) by {
                assert(jitter_range(
                    unit.shape()[k],
                    jittered.shape()[k],
                    reach(k, jitter as int),
                ));
            }
        }
    }
    edge
}

impl Puzzle {
    pub fn builder() -> (r: Builder)
        ensures
            r == Builder::new_spec(),
    {
        Builder::new()
    }

    pub fn num_vertices(&self) -> (r: usize)
        ensures
            r == self.vertices().len(),
    {
        self.vertices.len()
    }

    pub fn num_edges(&self) -> (r: usize)
        ensures
            r == self.edges().len(),
    {
        self.edges.len()
    }

    /// The position of the `i`-th vertex, row by row.
    pub fn vertex_at(&self, i: usize) -> (r: Point)
        requires
            i < self.vertices().len(),
        ensures
            r@ == self.vertices()[i as int],
    {
        self.vertices[i]
    }

    /// The two vertices and the shape of the `i`-th edge.
    pub fn edge_at(&self, i: usize) -> (r: (VertexIndex, VertexIndex, Edge))
        requires
            i < self.edges().len(),
        ensures
            (r.0@, r.1@) == self.keys()[i as int],
            r.2 == self.edges()[i as int],
    {
        let (a, b) = self.edges[i].0;
        (a, b, self.edges[i].1)
    }

    fn build(builder: &Builder, rng: &mut StdRng) -> (r: Result<Puzzle, ConfigError>)
        ensures
            match r {
                Ok(p) => config_error(*builder) is None && p.wf() && p.built_from(*builder),
                Err(e) => config_error(*builder) == Some(e),
            },
    {
        if builder.x_pieces == 0 || builder.y_pieces == 0 {
            return Err(ConfigError::ZeroPieces);
        }
        if builder.x_um == 0 || builder.y_um == 0 {
            return Err(ConfigError::ZeroSize);
        }
        if builder.x_pieces > MAX_PIECES || builder.y_pieces > MAX_PIECES || builder.x_um
            > MAX_COORD as u64 || builder.y_um > MAX_COORD as u64 || builder.jitter_pct
            > MAX_JITTER_PCT {
            return Err(ConfigError::OutOfRange);
        }
        let grid = Grid { x_pieces: builder.x_pieces, y_pieces: builder.y_pieces };
        let x_um = builder.x_um as i64;
        let y_um = builder.y_um as i64;
        let jitter = (builder.jitter_pct * 10) as i64;
        let vertices = gen_vertices(&grid, x_um, y_um);
        let keys = gen_edges(&grid);
        let mut edges: Vec<((VertexIndex, VertexIndex), Edge)> = Vec::new();
        let mut i: usize = 0;
        while i < keys.len()
            invariant
                grid.wf(),
                0 <= jitter <= MAX_JITTER,
                i <= keys.len(),
                edges.len() == i,
                forall|k: int| 0 <= k < i ==> (#[trigger] edges@[k]).0 == keys@[k],
                forall|k: int|
                    0 <= k < i ==> (#[trigger] edges@[k]).1.is_plain() == (on_border(
                        grid.xp(),
                        grid.yp(),
                        keys@[k].0@,
                    ) && on_border(grid.xp(), grid.yp(), keys@[k].1@)),
                forall|k: int| 0 <= k < i ==> shaped((#[trigger] edges@[k]).1, jitter as int),
            decreases keys.len() - i,
        {
            let (a, b) = keys[i];
            let edge = shape_edge(&grid, jitter, rng, a, b);
            edges.push(((a, b), edge));
            i = i + 1;
        }
        let puzzle = Puzzle { x_um, y_um, grid, jitter, vertices, edges };
        proof {
            assert(puzzle.vertices().len() == vertices@.len());
            assert forall|v: (int, int)| on_grid(grid.xp(), grid.yp(), v) implies #[trigger]
                puzzle.vertices()[flat_index(grid.xp(), v)] == vertex_pos(
                x_um as int,
                y_um as int,
                grid.xp(),
                grid.yp(),
                v,
            ) by {
                lemma_flat_index_bound(grid.xp(), grid.yp(), v);
                assert(vertices@[flat_index(grid.xp(), v)]@ == vertex_pos(
                    x_um as int,
                    y_um as int,
                    grid.xp(),
                    grid.yp(),
                    v,
                ));
            }
            assert(edges@.map_values(|e: ((VertexIndex, VertexIndex), Edge)| e.0) =~= keys@);
            assert forall|k: int| 0 <= k < puzzle.edges().len() implies (#[trigger]
            puzzle.edges()[k]).is_plain() == (on_border(
                grid.xp(),
                grid.yp(),
                puzzle.keys()[k].0,
            ) && on_border(grid.xp(), grid.yp(), puzzle.keys()[k].1)) && shaped(
                puzzle.edges()[k],
                jitter as int,
            ) by {
                assert(puzzle.edges()[k] == edges@[k].1);
                assert(puzzle.keys()[k] == (keys@[k].0@, keys@[k].1@));
            }
        }
        Ok(puzzle)
    }
}

proof fn lemma_base_near_unit(p: EdgePolarity)
    ensures
        base_shape(p).len() == 6,
        forall|k: int| 0 <= k < 6 ==> near_unit(#[trigger] base_shape(p)[k]),
{
    let t = template();
    assert(near_unit(t[0]) && near_unit(t[1]) && near_unit(t[2]) && near_unit(t[3]) && near_unit(
        t[4],
    ) && near_unit(t[5]));
}

proof fn lemma_vertex_in_plane(x_um: int, y_um: int, xp: int, yp: int, v: (int, int))
    requires
        1 <= xp <= MAX_PIECES,
        1 <= yp <= MAX_PIECES,
        0 <= x_um <= MAX_COORD,
        0 <= y_um <= MAX_COORD,
        on_grid(xp, yp, v),
    ensures
        in_plane_range(vertex_pos(x_um, y_um, xp, yp, v)),
{
    lemma_spacing(v.1, xp, x_um);
    lemma_spacing(v.0, yp, y_um);
}

impl Puzzle {
    /// The puzzle as an SVG image: one path that draws every edge, on a viewport of the
    /// puzzle's size in millimetres.
    pub fn to_svg(&self) -> (r: String)
        requires
            self.wf(),
        ensures
            r@ == self.svg_text(),
    {
        let mut svg = String::new();
        svg.append("<svg xmlns=\"http://www.w3.org/2000/svg\" version=\"1.0\" viewBox=\"0 0 ");
        assert(svg@ =~= "<svg xmlns=\"http://www.w3.org/2000/svg\" version=\"1.0\" viewBox=\"0 0 "@);
        let w = coord_string(self.x_um);
        let h = coord_string(self.y_um);
        svg.append(w.as_str());
        svg.append(" ");
        svg.append(h.as_str());
        svg.append("\" style=\"margin: 1em;\" width=\"");
        svg.append(w.as_str());
        svg.append("mm\" height=\"");
        svg.append(h.as_str());
        svg.append("mm\" >\n<path fill=\"none\" stroke=\"black\" stroke-width=\"0.1\" d=\"");
        let ghost header = svg@;
        assert(header == header_text(self.x_um(), self.y_um()));
        assert(svg@ =~= header + self.paths_text(0));
        let ghost xp = self.xp();
        let ghost yp = self.yp();
        let mut i: usize = 0;
        while i < self.edges.len()
            invariant
                self.wf(),
                xp == self.xp(),
                yp == self.yp(),
                header == header_text(self.x_um(), self.y_um()),
                i <= self.edges.len(),
                svg@ == header + self.paths_text(i as int),
            decreases self.edges.len() - i,
        {
            let (a, b) = self.edges[i].0;
            let mut e = self.edges[i].1;
            proof {
                assert(self.keys()[i as int] == (a@, b@));
                assert(self.edges()[i as int] == e);
                assert(grid_edge(xp, yp, a@, b@));
            }
            let start = self.vertices[self.grid.index_of_vertex(a)];
            let end = self.vertices[self.grid.index_of_vertex(b)];
            proof {
                assert(self.vertices()[flat_index(xp, a@)] == start@);
                assert(self.vertices()[flat_index(xp, b@)] == end@);
                lemma_vertex_in_plane(self.x_um(), self.y_um(), xp, yp, a@);
                lemma_vertex_in_plane(self.x_um(), self.y_um(), xp, yp, b@);
                if !e.is_plain() {
                    lemma_base_near_unit(e->Bumpy_0.polarity);
                    assert(shaped(e, self.jitter()));
                }
                assert forall|k: int| 0 <= k < e.shape().len() implies in_unit_range(
                    #[trigger] e.shape()[k],
                ) by {
                    assert(within(
                        base_shape(e->Bumpy_0.polarity)[k],
                        e.shape()[k],
                        reach(k, self.jitter()),
                    ));
                }
            }
            let ghost unit = e;
            e.transform(start, end);
            proof {
                assert forall|k: int| 0 <= k < e.shape().len() implies printable(
                    #[trigger] e.shape()[k],
                ) by {
                    lemma_place_bounded(unit.shape()[k], start@, end@);
                }
            }
            let t = e.svg(start, end);
            svg.append(t.as_str());
            svg.append("\n");
            proof {
                reveal_strlit("\n");
                assert(t@ == self.drawn_edge(i as int));
                assert(svg@ =~= header + self.paths_text(i + 1));
            }
            i = i + 1;
        }
        svg.append("\"></path>\n</svg>");
        svg
    }
}

/// A puzzle of `x` by `y` pieces has `(x + 1) * (y + 1)` vertices.
pub proof fn law_vertex_count(p: Puzzle)
    requires
        p.wf(),
    ensures
        p.vertices().len() == (p.xp() + 1) * (p.yp() + 1),
{
}

/// A puzzle of `x` by `y` pieces has `(x + 1) * y + x * (y + 1)` edges.
pub proof fn law_edge_count(p: Puzzle)
    requires
        p.wf(),
    ensures
        p.edges().len() == (p.xp() + 1) * p.yp() + p.xp() * (p.yp() + 1),
{
}

/// No two edges join the same pair of vertices.
pub proof fn law_edges_unique(p: Puzzle, i: int, j: int)
    requires
        p.wf(),
        0 <= i < p.keys().len(),
        0 <= j < p.keys().len(),
        i != j,
    ensures
        p.keys()[i] != p.keys()[j],
{
}

/// Every pair of neighbouring vertices is joined by exactly one edge, keyed by the pair with
/// its row-major smaller end first.
pub proof fn law_edges_complete(p: Puzzle, a: (int, int), b: (int, int))
    requires
        p.wf(),
        on_grid(p.xp(), p.yp(), a),
        on_grid(p.xp(), p.yp(), b),
        adjacent(a, b),
    ensures
        p.keys().contains(canonical(a, b)),
        forall|i: int, j: int|
            0 <= i < p.keys().len() && 0 <= j < p.keys().len() && p.keys()[i] == canonical(a, b)
                && p.keys()[j] == canonical(a, b) ==> i == j,
{
    let c = canonical(a, b);
    assert(grid_edge(p.xp(), p.yp(), c.0, c.1));
}

/// An edge is straight exactly when both its ends lie on the outer frame; otherwise it has a
/// tab.
pub proof fn law_plain_on_border(p: Puzzle, i: int)
    requires
        p.wf(),
        0 <= i < p.edges().len(),
    ensures
        p.edges()[i].is_plain() <==> on_border(p.xp(), p.yp(), p.keys()[i].0) && on_border(
            p.xp(),
            p.yp(),
            p.keys()[i].1,
        ),
{
}

/// Without jitter every tab is exactly the template, or the template reflected, and is drawn
/// as that shape placed on its segment.
pub proof fn law_no_jitter(p: Puzzle, i: int)
    requires
        p.wf(),
        p.jitter() == 0,
        0 <= i < p.edges().len(),
        !p.edges()[i].is_plain(),
    ensures
        p.edges()[i].shape() == base_shape(p.edges()[i]->Bumpy_0.polarity),
{
    let e = p.edges()[i];
    assert(shaped(e, 0));
    lemma_base_near_unit(e->Bumpy_0.polarity);
    assert forall|k: int| 0 <= k < 6 implies e.shape()[k] == base_shape(
        e->Bumpy_0.polarity,
    )[k] by {
        assert(within(base_shape(e->Bumpy_0.polarity)[k], e.shape()[k], reach(k, 0)));
    }
    assert(e.shape() =~= base_shape(e->Bumpy_0.polarity));
}

/// Two puzzles with the same vertices and edges render to the same text.
pub proof fn law_render_deterministic(p: Puzzle, q: Puzzle)
    requires
        p.x_um() == q.x_um(),
        p.y_um() == q.y_um(),
        p.xp() == q.xp(),
        p.vertices() == q.vertices(),
        p.keys() == q.keys(),
        p.edges() == q.edges(),
    ensures
        p.svg_text() == q.svg_text(),
{
    assert forall|k: int| 0 <= k <= p.edges().len() implies #[trigger] p.paths_text(k) == q.paths_text(k) by {
        lemma_same_paths(p, q, k);
    }
}

proof fn lemma_same_paths(p: Puzzle, q: Puzzle, k: int)
    requires
        p.xp() == q.xp(),
        p.vertices() == q.vertices(),
        p.keys() == q.keys(),
        p.edges() == q.edges(),
    ensures
        p.paths_text(k) == q.paths_text(k),
    decreases k,
{
    if k > 0 {
        lemma_same_paths(p, q, k - 1);
    }
}

} // verus!
