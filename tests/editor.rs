use table_forge::diagram::PointerEvent;
use table_forge::editor::{split_action, Command, Message, TableForge};
use table_forge::geometry::Point;
use table_forge::model::{Column, Model, Table, TablePoint};

fn names(app: &TableForge) -> Vec<String> {
    app.diagram().tables().iter().map(|t| t.name.clone()).collect()
}

fn visible(app: &TableForge) -> Vec<String> {
    app.diagram().tables().iter().filter(|t| t.visible).map(|t| t.name.clone()).collect()
}

#[test]
fn new_editor_holds_the_sample_diagram() {
    let app = TableForge::new();
    let tables = app.diagram().tables();
    assert_eq!(tables.len(), 10);
    assert_eq!(tables[0].name, "table1");
    assert_eq!(tables[0].position.0, Point::new(120, 0));
    assert_eq!(tables[4].position.0, Point::new(0, 60));
    assert_eq!(tables[5].schema, "inventory");
    assert_eq!(tables[2].subject_area, "orders");
    assert_eq!(tables[3].subject_area, "tables");
    assert_eq!(tables[1].foreign_keys[0].referenced_table, "table1");
    assert!(tables[0].foreign_keys.is_empty());
    assert!(tables[5].foreign_keys.is_empty());
    assert_eq!(visible(&app), vec!["table1", "table2", "table3", "table4", "table5"]);
}

#[test]
fn delete_action_removes_exactly_that_table() {
    let mut app = TableForge::new();
    app.update(Message::ContextMenuAction("delete:table3".to_string()));
    assert_eq!(
        names(&app),
        vec!["table1", "table2", "table4", "table5", "table6", "table7", "table8", "table9", "table10"]
    );
}

#[test]
fn delete_action_on_unknown_table_changes_nothing() {
    let mut app = TableForge::new();
    app.update(Message::ContextMenuAction("delete:unknown".to_string()));
    assert_eq!(names(&app).len(), 10);
}

#[test]
fn unknown_or_malformed_actions_are_ignored() {
    let mut app = TableForge::new();
    app.update(Message::ContextMenuAction("rename:table1".to_string()));
    app.update(Message::ContextMenuAction("delete".to_string()));
    app.update(Message::ContextMenuAction(String::new()));
    assert_eq!(names(&app).len(), 10);
}

#[test]
fn split_action_splits_at_the_first_colon() {
    assert_eq!(
        split_action("delete:a:b"),
        Some(("delete".to_string(), "a:b".to_string()))
    );
    assert_eq!(split_action(":x"), Some((String::new(), "x".to_string())));
    assert_eq!(split_action("nothing"), None);
}

#[test]
fn schema_and_search_recompute_visibility() {
    let mut app = TableForge::new();
    app.update(Message::SearchChanged("4".to_string()));
    assert_eq!(visible(&app), vec!["table4"]);
    app.update(Message::SearchChanged(String::new()));
    app.update(Message::SchemaChanged("inventory".to_string()));
    assert_eq!(visible(&app), vec!["table6", "table7", "table8", "table9", "table10"]);
    app.update(Message::SearchChanged("TABLE1".to_string()));
    assert_eq!(visible(&app), vec!["table10"]);
}

#[test]
fn context_menu_opens_on_a_hit_and_closes_on_an_action() {
    let mut app = TableForge::new();
    app.update(Message::CanvasEvent(PointerEvent::RightPressed(Point::new(130, 10))));
    assert_eq!(app.context_menu(), Some((Point::new(130, 10), "table1".to_string())));
    app.update(Message::ContextMenuAction("delete:table1".to_string()));
    assert_eq!(app.context_menu(), None);
    assert_eq!(names(&app).len(), 9);
}

#[test]
fn export_ddl_covers_the_visible_tables() {
    let mut app = TableForge::new();
    app.update(Message::SearchChanged("2".to_string()));
    match app.update(Message::ExportDDL) {
        Command::SaveDdl(text) => {
            assert_eq!(text, "CREATE TABLE public.`table2` (\n\t`id`\tserial);\n")
        }
        _ => panic!("expected DDL to save"),
    }
}

#[test]
fn sync_runs_once_until_complete() {
    let mut app = TableForge::new();
    assert!(matches!(app.update(Message::SyncDatabase), Command::SyncDatabase));
    assert!(app.is_syncing());
    assert!(matches!(app.update(Message::SyncDatabase), Command::Nothing));
    app.update(Message::SyncComplete(Ok(())));
    assert!(!app.is_syncing());
}

#[test]
fn load_schema_replaces_tables_and_failure_keeps_them() {
    let mut app = TableForge::new();
    app.update(Message::LoadSchema(Err("bad file".to_string())));
    assert_eq!(names(&app).len(), 10);
    let model = Model {
        tables: vec![Table {
            name: "orders".to_string(),
            schema: "public".to_string(),
            subject_area: "sales".to_string(),
            position: TablePoint(Point::new(10, 20)),
            columns: vec![Column { name: "id".to_string(), data_type: "serial".to_string() }],
            foreign_keys: vec![],
            visible: false,
        }],
    };
    app.update(Message::LoadSchema(Ok(model)));
    assert_eq!(names(&app), vec!["orders"]);
    assert_eq!(visible(&app), vec!["orders"]);
    assert!(app.diagram().needs_redraw());
}

#[test]
fn import_asks_for_a_file() {
    let mut app = TableForge::new();
    assert!(matches!(app.update(Message::ImportJson), Command::OpenJson));
    assert!(matches!(app.update(Message::Undo), Command::Nothing));
}

#[test]
fn export_json_reads_back_as_the_current_tables() {
    let mut app = TableForge::new();
    app.update(Message::ContextMenuAction("delete:table2".to_string()));
    let text = match app.update(Message::ExportJson) {
        Command::SaveJson(text) => text,
        _ => panic!("expected JSON to save"),
    };
    let model = Model::from_json(&text).expect("exported text reads back");
    let loaded: Vec<String> = model.tables.iter().map(|t| t.name.clone()).collect();
    assert_eq!(loaded, names(&app));
    let mut other = TableForge::new();
    other.update(Message::LoadSchema(Ok(model)));
    assert_eq!(names(&other), names(&app));
}
