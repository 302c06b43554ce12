use puzzgen::edge::{Edge, EdgePolarity};
use puzzgen::grid::VertexIndex;
use puzzgen::puzz::{Builder, ConfigError};
use puzzgen::Puzzle;
use rand::rngs::StdRng;
use rand::SeedableRng;

fn build(width_um: u64, height_um: u64, cols: usize, rows: usize, jitter: u64, seed: u64) -> Result<Puzzle, ConfigError> {
    let mut rng = StdRng::seed_from_u64(seed);
    Puzzle::builder()
        .size(width_um, height_um)
        .pieces(cols, rows)
        .vertex_jitter_pct(jitter)
        .build(&mut rng)
}

fn on_border(v: VertexIndex, cols: usize, rows: usize) -> bool {
    v.row == 0 || v.row == rows || v.col == 0 || v.col == cols
}

fn template() -> Vec<(i64, i64)> {
    vec![(400, 100), (600, 100), (200, 0), (500, -100), (700, 300), (800, 0)]
}

fn points(e: &Edge) -> Vec<(i64, i64)> {
    match e {
        Edge::Bumpless => vec![],
        Edge::Bumpy(d) => vec![
            (d.nubbin_start.x(), d.nubbin_start.y()),
            (d.nubbin_end.x(), d.nubbin_end.y()),
            (d.start_control.x(), d.start_control.y()),
            (d.left_nubbin_control.x(), d.left_nubbin_control.y()),
            (d.right_nubbin_control.x(), d.right_nubbin_control.y()),
            (d.end_control.x(), d.end_control.y()),
        ],
    }
}

#[test]
fn default_size_counts_and_output() {
    let p = build(300_000, 200_000, 15, 10, 10, 1).unwrap();
    assert_eq!(p.num_vertices(), 176);
    assert_eq!(p.num_edges(), 325);
    let svg = p.to_svg();
    assert_eq!(svg.matches("M ").count(), 325);
    assert!(svg.contains("viewBox=\"0 0 300 200\""));
    assert!(svg.contains("width=\"300mm\" height=\"200mm\""));
    assert!(svg.starts_with("<svg "));
    assert!(svg.ends_with("</svg>"));
}

#[test]
fn single_piece_is_four_plain_edges() {
    let p = build(50_000, 50_000, 1, 1, 10, 2).unwrap();
    assert_eq!(p.num_vertices(), 4);
    assert_eq!(p.num_edges(), 4);
    for i in 0..p.num_edges() {
        let (_, _, e) = p.edge_at(i);
        assert_eq!(e, Edge::Bumpless);
    }
    let svg = p.to_svg();
    assert_eq!(svg.matches(" L ").count(), 4);
    assert!(!svg.contains(" C "));
}

#[test]
fn single_piece_exact_text() {
    let p = build(2_000, 1_000, 1, 1, 10, 3).unwrap();
    let svg = p.to_svg();
    let mut lines: Vec<&str> = svg.lines().collect();
    assert_eq!(lines[0], "<svg xmlns=\"http://www.w3.org/2000/svg\" version=\"1.0\" viewBox=\"0 0 2 1\" style=\"margin: 1em;\" width=\"2mm\" height=\"1mm\" >");
    assert_eq!(lines[1], "<path fill=\"none\" stroke=\"black\" stroke-width=\"0.1\" d=\"M 0 0 L 0 1 ");
    assert_eq!(lines.pop().unwrap(), "</svg>");
    assert_eq!(lines.pop().unwrap(), "\"></path>");
    let mut rest: Vec<&str> = lines[2..].to_vec();
    rest.sort();
    assert_eq!(rest, vec!["M 0 0 L 2 0 ", "M 0 1 L 2 1 ", "M 2 0 L 2 1 "]);
}

#[test]
fn plain_exactly_on_border() {
    let (cols, rows) = (4, 3);
    let p = build(40_000, 30_000, cols, rows, 10, 4).unwrap();
    let mut tabs = 0;
    for i in 0..p.num_edges() {
        let (a, b, e) = p.edge_at(i);
        let both = on_border(a, cols, rows) && on_border(b, cols, rows);
        assert_eq!(e == Edge::Bumpless, both);
        if !both {
            tabs += 1;
        }
    }
    // only the frame's edges join two border vertices
    assert_eq!(tabs, p.num_edges() - 2 * (cols + rows));
}

#[test]
fn edges_unique_and_complete() {
    let (cols, rows) = (5, 4);
    let p = build(50_000, 40_000, cols, rows, 10, 5).unwrap();
    let mut keys: Vec<(usize, usize, usize, usize)> = Vec::new();
    for i in 0..p.num_edges() {
        let (a, b, _) = p.edge_at(i);
        let right = a.row == b.row && a.col + 1 == b.col;
        let down = a.col == b.col && a.row + 1 == b.row;
        assert!(right || down);
        keys.push((a.row, a.col, b.row, b.col));
    }
    let n = keys.len();
    keys.sort();
    keys.dedup();
    assert_eq!(keys.len(), n);
    assert_eq!(n, (cols + 1) * rows + cols * (rows + 1));
    for r in 0..=rows {
        for c in 0..=cols {
            if c < cols {
                assert!(keys.contains(&(r, c, r, c + 1)));
            }
            if r < rows {
                assert!(keys.contains(&(r, c, r + 1, c)));
            }
        }
    }
}

#[test]
fn vertices_evenly_spaced() {
    let p = build(300_000, 200_000, 3, 2, 10, 6).unwrap();
    assert_eq!(p.num_vertices(), 12);
    let v = p.vertex_at(0);
    assert_eq!((v.x(), v.y()), (0, 0));
    let v = p.vertex_at(1);
    assert_eq!((v.x(), v.y()), (100_000, 0));
    let v = p.vertex_at(5);
    assert_eq!((v.x(), v.y()), (100_000, 100_000));
    let v = p.vertex_at(11);
    assert_eq!((v.x(), v.y()), (300_000, 200_000));
}

#[test]
fn uneven_spacing_rounds_down() {
    let p = build(1_000, 1_000, 3, 1, 10, 7).unwrap();
    let xs: Vec<i64> = (0..4).map(|i| p.vertex_at(i).x()).collect();
    assert_eq!(xs, vec![0, 333, 666, 1_000]);
}

#[test]
fn zero_jitter_gives_template() {
    let p = build(60_000, 60_000, 6, 6, 0, 8).unwrap();
    let mirrored: Vec<(i64, i64)> = template().iter().map(|&(x, y)| (x, -y)).collect();
    let mut seen_left = false;
    let mut seen_right = false;
    for i in 0..p.num_edges() {
        let (_, _, e) = p.edge_at(i);
        if let Edge::Bumpy(d) = e {
            match d.polarity {
                EdgePolarity::Left => {
                    seen_left = true;
                    assert_eq!(points(&e), template());
                }
                EdgePolarity::Right => {
                    seen_right = true;
                    assert_eq!(points(&e), mirrored);
                }
            }
        }
    }
    assert!(seen_left && seen_right);
}

#[test]
fn jitter_stays_within_bounds() {
    let p = build(60_000, 60_000, 6, 6, 10, 9).unwrap();
    let mut moved = false;
    for i in 0..p.num_edges() {
        let (_, _, e) = p.edge_at(i);
        if let Edge::Bumpy(d) = e {
            let base: Vec<(i64, i64)> = match d.polarity {
                EdgePolarity::Left => template(),
                EdgePolarity::Right => template().iter().map(|&(x, y)| (x, -y)).collect(),
            };
            for (k, (p0, q)) in base.iter().zip(points(&e).iter()).enumerate() {
                let reach = if k < 2 { 50 } else { 100 };
                assert!((p0.0 - q.0).abs() <= reach && (p0.1 - q.1).abs() <= reach);
                if p0 != q {
                    moved = true;
                }
            }
        }
    }
    assert!(moved);
}

#[test]
fn same_seed_same_output() {
    let a = build(300_000, 200_000, 15, 10, 10, 42).unwrap().to_svg();
    let b = build(300_000, 200_000, 15, 10, 10, 42).unwrap().to_svg();
    assert_eq!(a, b);
    let c = build(300_000, 200_000, 15, 10, 10, 43).unwrap().to_svg();
    assert_ne!(a, c);
}

#[test]
fn zero_pieces_rejected() {
    assert_eq!(build(300_000, 200_000, 0, 10, 10, 1).err(), Some(ConfigError::ZeroPieces));
    assert_eq!(build(300_000, 200_000, 15, 0, 10, 1).err(), Some(ConfigError::ZeroPieces));
    assert_eq!(build(0, 0, 0, 0, 10, 1).err(), Some(ConfigError::ZeroPieces));
}

#[test]
fn zero_size_rejected() {
    assert_eq!(build(0, 200_000, 15, 10, 10, 1).err(), Some(ConfigError::ZeroSize));
    assert_eq!(build(300_000, 0, 15, 10, 10, 1).err(), Some(ConfigError::ZeroSize));
}

#[test]
fn out_of_range_rejected() {
    assert_eq!(build(300_000, 200_000, 10_001, 10, 10, 1).err(), Some(ConfigError::OutOfRange));
    assert_eq!(build(1_000_000_001, 200_000, 15, 10, 10, 1).err(), Some(ConfigError::OutOfRange));
    assert_eq!(build(300_000, 200_000, 15, 10, 1_001, 1).err(), Some(ConfigError::OutOfRange));
    assert!(build(1_000_000_000, 1_000_000_000, 2, 2, 1_000, 1).is_ok());
}

#[test]
fn builder_defaults() {
    let b = Builder::new();
    assert_eq!(b.jitter_pct, 10);
    assert_eq!(b.x_pieces, 0);
    let b = b.size(5, 6).pieces(7, 8).vertex_jitter_pct(3);
    assert_eq!((b.x_um, b.y_um, b.x_pieces, b.y_pieces, b.jitter_pct), (5, 6, 7, 8, 3));
}
