use table_forge::diagram::{Diagram, PointerEvent, Response};
use table_forge::geometry::Point;
use table_forge::model::{Column, ForeignKey, Table, TablePoint};
use table_forge::render::Primitive;

fn table(name: &str, schema: &str, x: i64, y: i64, visible: bool) -> Table {
    Table {
        name: name.to_string(),
        schema: schema.to_string(),
        subject_area: "orders".to_string(),
        position: TablePoint(Point::new(x, y)),
        columns: vec![Column { name: "id".to_string(), data_type: "serial".to_string() }],
        foreign_keys: vec![],
        visible,
    }
}

fn names_of_visible(d: &Diagram) -> Vec<String> {
    d.tables().iter().filter(|t| t.visible).map(|t| t.name.clone()).collect()
}

fn ten_tables() -> Vec<Table> {
    (1..=10)
        .map(|i| {
            let schema = if i <= 5 { "public" } else { "inventory" };
            table(&format!("t{}", i), schema, i * 120, 0, true)
        })
        .collect()
}

#[test]
fn filter_by_schema_shows_exactly_that_schema() {
    let mut d = Diagram::new(ten_tables());
    d.apply_filter("public", "");
    assert_eq!(names_of_visible(&d), vec!["t1", "t2", "t3", "t4", "t5"]);
}

#[test]
fn filter_by_query_shows_matching_names_only() {
    let mut d = Diagram::new(ten_tables());
    d.apply_filter("public", "4");
    assert_eq!(names_of_visible(&d), vec!["t4"]);
}

#[test]
fn filter_query_ignores_case() {
    let mut d = Diagram::new(vec![
        table("Orders", "public", 0, 0, false),
        table("customers", "public", 200, 0, false),
    ]);
    d.apply_filter("public", "ORD");
    assert_eq!(names_of_visible(&d), vec!["Orders"]);
}

#[test]
fn filter_other_schema_hides_everything_there() {
    let mut d = Diagram::new(ten_tables());
    d.apply_filter("inventory", "t1");
    assert_eq!(names_of_visible(&d), vec!["t10"]);
}

#[test]
fn hit_test_prefers_earlier_table_every_time() {
    let d = Diagram::new(vec![
        table("first", "public", 10, 10, true),
        table("second", "public", 10, 10, true),
    ]);
    for _ in 0..3 {
        assert_eq!(d.find_table_at(Point::new(50, 30)), Some(0));
    }
}

#[test]
fn hit_test_skips_hidden_tables() {
    let d = Diagram::new(vec![
        table("hidden", "public", 10, 10, false),
        table("shown", "public", 10, 10, true),
    ]);
    assert_eq!(d.find_table_at(Point::new(50, 30)), Some(1));
    assert_eq!(d.find_table_at(Point::new(500, 300)), None);
}

#[test]
fn hit_test_bottom_edge_is_the_box_edge() {
    let d = Diagram::new(vec![table("a", "public", 0, 0, true)]);
    assert_eq!(d.find_table_at(Point::new(100, 50)), Some(0));
    assert_eq!(d.find_table_at(Point::new(50, 51)), None);
}

#[test]
fn delete_removes_only_the_named_table() {
    let mut d = Diagram::new(ten_tables());
    d.delete_table("t3");
    let names: Vec<String> = d.tables().iter().map(|t| t.name.clone()).collect();
    assert_eq!(names, vec!["t1", "t2", "t4", "t5", "t6", "t7", "t8", "t9", "t10"]);
}

#[test]
fn delete_of_unknown_name_changes_nothing() {
    let mut d = Diagram::new(ten_tables());
    d.delete_table("unknown");
    assert_eq!(d.tables().len(), 10);
}

#[test]
fn right_press_on_table_selects_it_and_asks_for_menu() {
    let mut d = Diagram::new(vec![table("a", "public", 100, 100, true)]);
    let r = d.update(PointerEvent::RightPressed(Point::new(120, 110)));
    assert_eq!(r, Response::ShowContextMenu(Point::new(120, 110)));
    assert_eq!(d.selected_table().map(|s| s.as_str()), Some("a"));
}

#[test]
fn right_press_on_empty_space_clears_selection() {
    let mut d = Diagram::new(vec![table("a", "public", 100, 100, true)]);
    d.update(PointerEvent::RightPressed(Point::new(120, 110)));
    let r = d.update(PointerEvent::RightPressed(Point::new(500, 500)));
    assert_eq!(r, Response::Captured);
    assert_eq!(d.selected_table(), None);
}

#[test]
fn right_press_uses_pan_and_zoom() {
    let mut d = Diagram::new(vec![table("a", "public", 100, 100, true)]);
    d.set_zoom(2000);
    d.set_pan(table_forge::geometry::Vector::new(10, 20));
    let r = d.update(PointerEvent::RightPressed(Point::new(230, 240)));
    assert_eq!(r, Response::ShowContextMenu(Point::new(230, 240)));
    let r = d.update(PointerEvent::RightPressed(Point::new(150, 150)));
    assert_eq!(r, Response::Captured);
}

#[test]
fn drag_moves_selected_table_by_pointer_motion_and_snaps() {
    let mut d = Diagram::new(vec![table("a", "public", 120, 0, true)]);
    d.update(PointerEvent::RightPressed(Point::new(300, 300)));
    d.update(PointerEvent::RightPressed(Point::new(130, 10)));
    let r = d.update(PointerEvent::Moved(Point::new(334, 316)));
    assert_eq!(r, Response::Captured);
    assert_eq!(d.tables()[0].position.0, Point::new(150, 20));
    d.update(PointerEvent::Moved(Point::new(338, 316)));
    assert_eq!(d.tables()[0].position.0, Point::new(150, 20));
}

#[test]
fn drag_delta_scales_with_zoom() {
    let mut d = Diagram::new(vec![table("a", "public", 0, 0, true)]);
    d.set_zoom(2000);
    d.update(PointerEvent::RightPressed(Point::new(400, 400)));
    d.update(PointerEvent::RightPressed(Point::new(10, 10)));
    d.update(PointerEvent::Moved(Point::new(440, 460)));
    assert_eq!(d.tables()[0].position.0, Point::new(20, 30));
}

#[test]
fn move_without_selection_is_ignored() {
    let mut d = Diagram::new(vec![table("a", "public", 0, 0, true)]);
    assert_eq!(d.update(PointerEvent::Moved(Point::new(40, 40))), Response::Ignored);
    assert_eq!(d.tables()[0].position.0, Point::new(0, 0));
    assert_eq!(d.update(PointerEvent::Other), Response::Ignored);
}

#[test]
fn zoom_is_clamped_to_positive_range() {
    let mut d = Diagram::new(vec![]);
    assert_eq!(d.zoom(), 1000);
    d.set_zoom(0);
    assert_eq!(d.zoom(), 100);
    d.set_zoom(-5);
    assert_eq!(d.zoom(), 100);
    d.set_zoom(50_000);
    assert_eq!(d.zoom(), 10_000);
    d.set_zoom(1500);
    assert_eq!(d.zoom(), 1500);
}

#[test]
fn cache_is_kept_until_invalidated() {
    let mut d = Diagram::new(vec![table("a", "public", 0, 0, true)]);
    assert!(d.needs_redraw());
    d.draw();
    assert!(!d.needs_redraw());
    d.draw();
    assert!(!d.needs_redraw());
    d.set_zoom(2000);
    assert!(d.needs_redraw());
    d.draw();
    d.update(PointerEvent::RightPressed(Point::new(20, 20)));
    assert!(d.needs_redraw());
    d.draw();
    d.delete_table("a");
    assert!(d.needs_redraw());
}

fn edges(frame: &[Primitive]) -> Vec<(Point, Point)> {
    frame
        .iter()
        .filter_map(|p| match p {
            Primitive::Edge { from, to } => Some((*from, *to)),
            _ => None,
        })
        .collect()
}

#[test]
fn draw_gives_box_label_and_lines_of_visible_tables() {
    let mut a = table("a", "public", 0, 0, true);
    a.foreign_keys = vec![
        ForeignKey { column: "b_id".to_string(), referenced_table: "b".to_string() },
        ForeignKey { column: "c_id".to_string(), referenced_table: "c".to_string() },
        ForeignKey { column: "x_id".to_string(), referenced_table: "missing".to_string() },
    ];
    let b = table("b", "public", 200, 100, true);
    let c = table("c", "public", 400, 0, false);
    let mut d = Diagram::new(vec![a, b, c]);
    let frame = d.draw();
    assert_eq!(frame.len(), 5);
    match &frame[0] {
        Primitive::Rect { origin, highlighted } => {
            assert_eq!(*origin, Point::new(0, 0));
            assert!(!highlighted);
        }
        _ => panic!("expected a box first"),
    }
    match &frame[1] {
        Primitive::Label { at, text } => {
            assert_eq!(*at, Point::new(5, 15));
            assert_eq!(text, "a");
        }
        _ => panic!("expected a label second"),
    }
    assert_eq!(edges(&frame), vec![(Point::new(100, 25), Point::new(200, 125))]);
}

#[test]
fn draw_highlights_selection_and_counts_columns_when_detailed() {
    let mut t = table("orders", "public", 0, 0, true);
    t.columns = (0..12)
        .map(|i| Column { name: format!("c{}", i), data_type: "int".to_string() })
        .collect();
    let mut d = Diagram::new(vec![t]);
    d.set_simplified(false);
    d.update(PointerEvent::RightPressed(Point::new(10, 10)));
    let frame = d.draw();
    match &frame[0] {
        Primitive::Rect { highlighted, .. } => assert!(*highlighted),
        _ => panic!("expected a box first"),
    }
    match &frame[1] {
        Primitive::Label { text, .. } => assert_eq!(text, "orders (12)"),
        _ => panic!("expected a label second"),
    }
}

#[test]
fn delete_removes_every_table_of_that_name() {
    let mut d = Diagram::new(vec![
        table("dup", "public", 0, 0, true),
        table("keep", "public", 200, 0, true),
        table("dup", "public", 400, 0, true),
    ]);
    d.delete_table("dup");
    let names: Vec<String> = d.tables().iter().map(|t| t.name.clone()).collect();
    assert_eq!(names, vec!["keep"]);
}

#[test]
fn pointer_positions_beyond_the_screen_range_are_clamped() {
    let mut d = Diagram::new(vec![table("a", "public", 0, 0, true)]);
    let r = d.update(PointerEvent::RightPressed(Point::new(i64::MAX, i64::MIN)));
    assert_eq!(r, Response::Captured);
    let r = d.update(PointerEvent::RightPressed(Point::new(10, 10)));
    assert_eq!(r, Response::ShowContextMenu(Point::new(10, 10)));
    d.update(PointerEvent::Moved(Point::new(i64::MAX, 10)));
    assert_eq!(d.tables()[0].position.0, Point::new(0, 1_000_000_000_010));
}
