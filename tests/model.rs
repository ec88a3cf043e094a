use table_forge::geometry::Point;
use table_forge::model::{Column, ForeignKey, Model, Table, TablePoint};

fn column(name: &str, data_type: &str) -> Column {
    Column { name: name.to_string(), data_type: data_type.to_string() }
}

fn table(name: &str, columns: Vec<Column>, visible: bool) -> Table {
    Table {
        name: name.to_string(),
        schema: "public".to_string(),
        subject_area: "orders".to_string(),
        position: TablePoint(Point::new(0, 0)),
        columns,
        foreign_keys: vec![],
        visible,
    }
}

#[test]
fn ddl_covers_only_visible_tables() {
    let model = Model {
        tables: vec![
            table("orders", vec![column("id", "serial")], true),
            table("hidden", vec![column("id", "serial")], false),
        ],
    };
    let ddl = model.to_ddl();
    assert_eq!(ddl.matches("CREATE TABLE").count(), 1);
    assert_eq!(ddl, "CREATE TABLE public.`orders` (\n\t`id`\tserial);\n");
}

#[test]
fn ddl_separates_columns_with_commas_except_the_last() {
    let model = Model {
        tables: vec![table("t", vec![column("id", "serial"), column("name", "text")], true)],
    };
    assert_eq!(model.to_ddl(), "CREATE TABLE public.`t` (\n\t`id`\tserial,\t`name`\ttext);\n");
}

#[test]
fn ddl_of_empty_model_is_empty() {
    assert_eq!(Model { tables: vec![] }.to_ddl(), "");
}

#[test]
fn table_clone_keeps_persisted_fields() {
    let mut t = table("orders", vec![column("id", "serial")], true);
    t.foreign_keys = vec![ForeignKey {
        column: "customer_id".to_string(),
        referenced_table: "customers".to_string(),
    }];
    let c = t.clone();
    assert_eq!(c.name, "orders");
    assert_eq!(c.columns.len(), 1);
    assert_eq!(c.columns[0].data_type, "serial");
    assert_eq!(c.foreign_keys[0].referenced_table, "customers");
    assert!(c.visible);
}
