use table_forge::geometry::Point;
use table_forge::model::{Column, ForeignKey, Model, Table, TablePoint};

fn sample_model() -> Model {
    Model {
        tables: vec![
            Table {
                name: "orders".to_string(),
                schema: "public".to_string(),
                subject_area: "sales".to_string(),
                position: TablePoint(Point::new(-120, 9_000_000_000)),
                columns: vec![
                    Column { name: "id".to_string(), data_type: "serial".to_string() },
                    Column { name: "customer_id".to_string(), data_type: "int".to_string() },
                ],
                foreign_keys: vec![ForeignKey {
                    column: "customer_id".to_string(),
                    referenced_table: "customers".to_string(),
                }],
                visible: true,
            },
            Table {
                name: "cust\"omers\\".to_string(),
                schema: "crm".to_string(),
                subject_area: String::new(),
                position: TablePoint(Point::new(i64::MIN, i64::MAX)),
                columns: vec![],
                foreign_keys: vec![],
                visible: false,
            },
        ],
    }
}

fn assert_same(a: &Model, b: &Model) {
    assert_eq!(a.tables.len(), b.tables.len());
    for (x, y) in a.tables.iter().zip(b.tables.iter()) {
        assert_eq!(x.name, y.name);
        assert_eq!(x.schema, y.schema);
        assert_eq!(x.subject_area, y.subject_area);
        assert_eq!(x.position, y.position);
        assert_eq!(x.visible, y.visible);
        assert_eq!(x.columns.len(), y.columns.len());
        for (c, d) in x.columns.iter().zip(y.columns.iter()) {
            assert_eq!(c.name, d.name);
            assert_eq!(c.data_type, d.data_type);
        }
        assert_eq!(x.foreign_keys.len(), y.foreign_keys.len());
        for (f, g) in x.foreign_keys.iter().zip(y.foreign_keys.iter()) {
            assert_eq!(f.column, g.column);
            assert_eq!(f.referenced_table, g.referenced_table);
        }
    }
}

#[test]
fn json_round_trip_keeps_every_persisted_field() {
    let model = sample_model();
    let text = model.to_json();
    let back = Model::from_json(&text).expect("encoded model reads back");
    assert_same(&model, &back);
}

#[test]
fn json_text_is_the_documented_object() {
    let model = Model {
        tables: vec![Table {
            name: "t".to_string(),
            schema: "s".to_string(),
            subject_area: "a".to_string(),
            position: TablePoint(Point::new(10, -20)),
            columns: vec![Column { name: "id".to_string(), data_type: "serial".to_string() }],
            foreign_keys: vec![ForeignKey {
                column: "id".to_string(),
                referenced_table: "u".to_string(),
            }],
            visible: true,
        }],
    };
    assert_eq!(
        model.to_json(),
        "{\"tables\":[{\"name\":\"t\",\"schema\":\"s\",\"subject_area\":\"a\",\"position\":[10,-20],\"columns\":[{\"name\":\"id\",\"data_type\":\"serial\"}],\"foreign_keys\":[{\"column\":\"id\",\"referenced_table\":\"u\"}],\"visible\":true}]}"
    );
}

#[test]
fn json_escapes_quotes_and_backslashes() {
    let model = sample_model();
    let text = model.to_json();
    assert!(text.contains("\"name\":\"cust\\\"omers\\\\\""));
}

#[test]
fn json_of_empty_model() {
    let model = Model { tables: vec![] };
    assert_eq!(model.to_json(), "{\"tables\":[]}");
    assert_eq!(Model::from_json("{\"tables\":[]}").unwrap().tables.len(), 0);
}

#[test]
fn malformed_json_is_an_error() {
    assert!(Model::from_json("").is_err());
    assert!(Model::from_json("{\"tables\":[]} ").is_err());
    assert!(Model::from_json("{\"tables\":[").is_err());
    assert!(Model::from_json("{\"tables\":[{\"name\":\"t\"}]}").is_err());
    let text = sample_model().to_json().replace("9000000000", "99999999999999999999");
    assert!(Model::from_json(&text).is_err());
}
