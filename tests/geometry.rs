use puzzgen::edge::{Edge, EdgeDesc, EdgePolarity};
use puzzgen::geom::Point;
use puzzgen::text::coord_string;
use rand::rngs::StdRng;
use rand::SeedableRng;

#[test]
fn place_fixes_segment_ends() {
    let cases = [((0, 0), (10_000, 0)), ((5_000, 7_000), (5_000, 12_000)), ((-3, 8), (1_234, -5_678))];
    for &((sx, sy), (ex, ey)) in cases.iter() {
        let s = Point::new(sx, sy);
        let e = Point::new(ex, ey);
        assert_eq!(Point::new(0, 0).place_on(s, e), s);
        assert_eq!(Point::new(1000, 0).place_on(s, e), e);
    }
}

#[test]
fn place_turns_and_scales() {
    // a vertical segment of length 2000 pointing down the y axis
    let s = Point::new(100, 100);
    let e = Point::new(100, 2_100);
    assert_eq!(Point::new(500, 0).place_on(s, e), Point::new(100, 1_100));
    assert_eq!(Point::new(500, 100).place_on(s, e), Point::new(-100, 1_100));
    // horizontal segment
    let e = Point::new(2_100, 100);
    assert_eq!(Point::new(400, 100).place_on(s, e), Point::new(900, 300));
    // floor division on negative products
    assert_eq!(Point::new(1, -1).place_on(Point::new(0, 0), Point::new(1, 0)), Point::new(0, -1));
}

#[test]
fn transform_places_every_point() {
    let mut e = Edge::nubbin();
    e.transform(Point::new(0, 0), Point::new(10_000, 0));
    match e {
        Edge::Bumpy(d) => {
            assert_eq!(d.nubbin_start, Point::new(4_000, 1_000));
            assert_eq!(d.nubbin_end, Point::new(6_000, 1_000));
            assert_eq!(d.start_control, Point::new(2_000, 0));
            assert_eq!(d.left_nubbin_control, Point::new(5_000, -1_000));
            assert_eq!(d.right_nubbin_control, Point::new(7_000, 3_000));
            assert_eq!(d.end_control, Point::new(8_000, 0));
        }
        Edge::Bumpless => panic!("expected a tab"),
    }
    let mut p = Edge::plain();
    p.transform(Point::new(0, 0), Point::new(10_000, 0));
    assert_eq!(p, Edge::Bumpless);
}

#[test]
fn mirror_twice_restores() {
    let mut rng = StdRng::seed_from_u64(11);
    let mut e = Edge::nubbin();
    e.jitter(100, &mut rng);
    let before = e;
    e.mirror_x();
    assert_ne!(e, before);
    if let Edge::Bumpy(d) = e {
        assert_eq!(d.polarity, EdgePolarity::Right);
    }
    e.mirror_x();
    assert_eq!(e, before);
}

#[test]
fn mirror_negates_y() {
    assert_eq!(Point::new(3, 4).mirror_x(), Point::new(3, -4));
    let mut e = Edge::nubbin();
    e.mirror_x();
    if let Edge::Bumpy(d) = e {
        assert_eq!(d.right_nubbin_control, Point::new(700, -300));
        assert_eq!(d.left_nubbin_control, Point::new(500, 100));
    } else {
        panic!("expected a tab");
    }
}

#[test]
fn unit_edge_is_template() {
    let d = EdgeDesc::unit_edge();
    assert_eq!(d.polarity, EdgePolarity::Left);
    assert_eq!(d.nubbin_start, Point::new(400, 100));
    assert_eq!(d.end_control, Point::new(800, 0));
}

#[test]
fn jitter_moves_within_range() {
    let mut rng = StdRng::seed_from_u64(12);
    let mut moved = false;
    for _ in 0..200 {
        let q = Point::new(0, 0).jitter(5, &mut rng);
        assert!(q.x() >= -5 && q.x() < 5 && q.y() >= -5 && q.y() < 5);
        if q != Point::new(0, 0) {
            moved = true;
        }
    }
    assert!(moved);
    assert_eq!(Point::new(7, 8).jitter(0, &mut rng), Point::new(7, 8));
}

#[test]
fn translate_adds() {
    assert_eq!(Point::new(1, 2).translate_to(Point::new(10, -20)), Point::new(11, -18));
}

#[test]
fn coordinates_in_millimetres() {
    assert_eq!(coord_string(0), "0");
    assert_eq!(coord_string(300_000), "300");
    assert_eq!(coord_string(-12_500), "-12.5");
    assert_eq!(coord_string(1_234), "1.234");
    assert_eq!(coord_string(1_230), "1.23");
    assert_eq!(coord_string(5), "0.005");
    assert_eq!(coord_string(-40), "-0.04");
    assert_eq!(coord_string(9_876_543_210), "9876543.21");
}

#[test]
fn plain_edge_text() {
    let s = Edge::plain().svg(Point::new(0, 1_500), Point::new(20_000, 1_500));
    assert_eq!(s, "M 0 1.5 L 20 1.5 ");
}

#[test]
fn tab_edge_text() {
    let mut e = Edge::nubbin();
    let s = Point::new(0, 0);
    let t = Point::new(10_000, 0);
    e.transform(s, t);
    assert_eq!(e.svg(s, t), "M 0 0 C 2 0 5 -1 4 1 S 7 3 6 1  8 0 10 0 ");
}

#[test]
fn point_offset_and_scale() {
    assert_eq!(Point::new(3, -4).offset_by(10, 20), Point::new(13, 16));
    assert_eq!(Point::new(3, -4).offset_by(0, 0), Point::new(3, -4));
    assert_eq!(Point::new(3, -4).scale(2, 5), Point::new(6, -20));
}

#[test]
fn edge_offset_moves_each_point() {
    let mut e = Edge::nubbin();
    let offsets = vec![(1, 2), (3, 4), (5, 6), (7, 8), (9, 10), (11, 12)];
    e.offset_by(&offsets);
    match e {
        Edge::Bumpy(d) => {
            assert_eq!(d.polarity, EdgePolarity::Left);
            assert_eq!(d.nubbin_start, Point::new(401, 102));
            assert_eq!(d.nubbin_end, Point::new(603, 104));
            assert_eq!(d.start_control, Point::new(205, 6));
            assert_eq!(d.left_nubbin_control, Point::new(507, -92));
            assert_eq!(d.right_nubbin_control, Point::new(709, 310));
            assert_eq!(d.end_control, Point::new(811, 12));
        }
        Edge::Bumpless => panic!("expected a tab"),
    }
    let mut p = Edge::plain();
    p.offset_by(&offsets);
    assert_eq!(p, Edge::Bumpless);
}

#[test]
fn mirror_if_follows_the_coin() {
    let mut e = Edge::nubbin();
    e.mirror_if(false);
    assert_eq!(e, Edge::nubbin());
    e.mirror_if(true);
    let mut m = Edge::nubbin();
    m.mirror_x();
    assert_eq!(e, m);
}

#[test]
fn edge_jitter_stays_in_half_open_range() {
    let mut rng = StdRng::seed_from_u64(13);
    for _ in 0..50 {
        let mut e = Edge::nubbin();
        e.jitter(100, &mut rng);
        if let Edge::Bumpy(d) = e {
            let pts = [d.nubbin_start, d.nubbin_end, d.start_control, d.left_nubbin_control, d.right_nubbin_control, d.end_control];
            let base = [(400, 100), (600, 100), (200, 0), (500, -100), (700, 300), (800, 0)];
            for k in 0..6 {
                let r = if k < 2 { 50 } else { 100 };
                let dx = pts[k].x() - base[k].0;
                let dy = pts[k].y() - base[k].1;
                assert!(-r <= dx && dx < r && -r <= dy && dy < r);
            }
        }
    }
    let mut e = Edge::nubbin();
    e.jitter(0, &mut rng);
    assert_eq!(e, Edge::nubbin());
}
