use puzzgen::graph::gen_edges;
use puzzgen::grid::{Grid, VertexIndex};

#[test]
fn edge_counts_follow_formula() {
    for x in 1..6usize {
        for y in 1..6usize {
            let edges = gen_edges(&Grid { x_pieces: x, y_pieces: y });
            assert_eq!(edges.len(), (x + 1) * y + x * (y + 1));
        }
    }
}

#[test]
fn edges_are_canonical_neighbours() {
    let edges = gen_edges(&Grid { x_pieces: 3, y_pieces: 2 });
    for (a, b) in edges.iter() {
        assert!(a.precedes(b));
        assert!((a.row == b.row && a.col + 1 == b.col) || (a.col == b.col && a.row + 1 == b.row));
    }
}

#[test]
fn vertex_index_arithmetic() {
    let g = Grid { x_pieces: 15, y_pieces: 10 };
    assert_eq!(g.vertex_count(), 176);
    assert_eq!(g.index_of_vertex(VertexIndex::new(0, 0)), 0);
    assert_eq!(g.index_of_vertex(VertexIndex::new(1, 0)), 16);
    assert_eq!(g.index_of_vertex(VertexIndex::new(10, 15)), 175);
    assert!(g.is_edge_vertex(VertexIndex::new(0, 5)));
    assert!(g.is_edge_vertex(VertexIndex::new(4, 15)));
    assert!(!g.is_edge_vertex(VertexIndex::new(4, 5)));
}

#[test]
fn neighbours_of_corner_and_middle() {
    let g = Grid { x_pieces: 3, y_pieces: 3 };
    let n = g.neighbors(&VertexIndex::new(0, 0));
    assert_eq!(n, vec![VertexIndex::new(1, 0), VertexIndex::new(0, 1)]);
    let n = g.neighbors(&VertexIndex::new(1, 1));
    assert_eq!(
        n,
        vec![VertexIndex::new(0, 1), VertexIndex::new(2, 1), VertexIndex::new(1, 0), VertexIndex::new(1, 2)]
    );
}

#[test]
fn row_major_order() {
    assert!(VertexIndex::new(0, 5).precedes(&VertexIndex::new(1, 0)));
    assert!(VertexIndex::new(2, 1).precedes(&VertexIndex::new(2, 2)));
    assert!(!VertexIndex::new(2, 3).precedes(&VertexIndex::new(2, 2)));
}
