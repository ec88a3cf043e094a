use table_forge::geometry::{
    contains, diagram_to_screen, screen_to_diagram, snap_coord, snap_point, Point, Vector,
};

#[test]
fn screen_to_diagram_divides_by_zoom_after_pan() {
    let d = screen_to_diagram(Point::new(250, 130), Vector::new(50, 30), 2000);
    assert_eq!(d, Point::new(100, 50));
}

#[test]
fn screen_to_diagram_rounds_down() {
    let d = screen_to_diagram(Point::new(-3, 7), Vector::new(0, 0), 2000);
    assert_eq!(d, Point::new(-2, 3));
}

#[test]
fn diagram_to_screen_scales_then_pans() {
    let s = diagram_to_screen(Point::new(100, 50), Vector::new(50, 30), 2000);
    assert_eq!(s, Point::new(250, 130));
}

#[test]
fn transform_round_trip_is_exact_at_zoom_one_or_less() {
    let pans = [Vector::new(0, 0), Vector::new(-37, 412), Vector::new(1000, -1000)];
    let zooms = [100, 333, 700, 1000];
    for pan in pans {
        for zoom in zooms {
            for x in [-501, -3, 0, 1, 17, 999] {
                let s = Point::new(x, 2 * x + 5);
                let back = diagram_to_screen(screen_to_diagram(s, pan, zoom), pan, zoom);
                assert_eq!(back, s);
            }
        }
    }
}

#[test]
fn transform_round_trip_stays_within_one_zoomed_unit() {
    let pan = Vector::new(13, -8);
    for zoom in [1500, 2000, 4321, 10_000] {
        for x in [-777, -1, 0, 5, 12_345] {
            let s = Point::new(x, -x);
            let back = diagram_to_screen(screen_to_diagram(s, pan, zoom), pan, zoom);
            assert!(back.x <= s.x && (s.x - back.x) * 1000 < zoom);
            assert!(back.y <= s.y && (s.y - back.y) * 1000 < zoom);
        }
    }
}

#[test]
fn snap_rounds_to_nearest_ten_halves_away_from_zero() {
    assert_eq!(snap_coord(14), 10);
    assert_eq!(snap_coord(15), 20);
    assert_eq!(snap_coord(-14), -10);
    assert_eq!(snap_coord(-15), -20);
    assert_eq!(snap_coord(0), 0);
    assert_eq!(snap_point(Point::new(154, 16)), Point::new(150, 20));
}

#[test]
fn snap_leaves_grid_points_and_is_idempotent() {
    for v in [-120, -10, 0, 10, 590] {
        assert_eq!(snap_coord(v), v);
    }
    for v in [-1234, -5, -4, 3, 5, 99, 1001] {
        let once = snap_coord(v);
        assert_eq!(snap_coord(once), once);
    }
}

#[test]
fn box_includes_its_edges_and_bottom_edge_uses_its_own_origin() {
    let pos = Point::new(100, 200);
    assert!(contains(pos, Point::new(100, 200)));
    assert!(contains(pos, Point::new(200, 250)));
    assert!(!contains(pos, Point::new(201, 220)));
    assert!(!contains(pos, Point::new(150, 251)));
    assert!(!contains(pos, Point::new(150, 199)));
}
