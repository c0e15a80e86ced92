use sqlite2mongo::builder::{create_mongo_document, ColumnError};
use sqlite2mongo::document::Document;
use sqlite2mongo::row::{Column, Row};
use sqlite2mongo::value::{RawCell, Stored, TypedValue};

fn column(name: &str, declared: &str, runtime: &str) -> Column {
    Column {
        name: name.to_string(),
        declared_type: declared.to_string(),
        runtime_type: runtime.to_string(),
    }
}

fn integer(v: i64) -> RawCell {
    RawCell { stored: Stored::Integer(v), instant: None }
}

fn text(s: &str) -> RawCell {
    RawCell { stored: Stored::Text(s.to_string()), instant: None }
}

fn document(fields: Vec<(&str, TypedValue)>) -> Document {
    let mut doc = Document::new();
    for (key, value) in fields {
        doc.insert(key.to_string(), value);
    }
    doc
}

fn entries(fields: Vec<(&str, TypedValue)>) -> Vec<(String, TypedValue)> {
    fields.into_iter().map(|(k, v)| (k.to_string(), v)).collect()
}

#[test]
fn new_document_is_empty() {
    let doc = Document::new();
    assert_eq!(doc.len(), 0);
    assert_eq!(doc.get("id"), None);
    assert_eq!(doc.into_entries(), vec![]);
}

#[test]
fn insert_appends_new_names_in_order() {
    let mut doc = Document::new();
    doc.insert("b".to_string(), TypedValue::Int64(1));
    doc.insert("a".to_string(), TypedValue::Bool(true));
    doc.insert("c".to_string(), TypedValue::Null);
    assert_eq!(doc.len(), 3);
    assert_eq!(doc.get("a"), Some(&TypedValue::Bool(true)));
    assert_eq!(doc.get("b"), Some(&TypedValue::Int64(1)));
    assert_eq!(doc.get("c"), Some(&TypedValue::Null));
    assert_eq!(doc.get("d"), None);
    assert_eq!(
        doc.into_entries(),
        entries(vec![("b", TypedValue::Int64(1)), ("a", TypedValue::Bool(true)), ("c", TypedValue::Null)])
    );
}

#[test]
fn insert_of_a_known_name_replaces_the_value_in_place() {
    let mut doc = Document::new();
    doc.insert("a".to_string(), TypedValue::Int64(1));
    doc.insert("b".to_string(), TypedValue::Int64(2));
    doc.insert("a".to_string(), TypedValue::String("new".to_string()));
    assert_eq!(doc.len(), 2);
    assert_eq!(doc.get("a"), Some(&TypedValue::String("new".to_string())));
    assert_eq!(
        doc.into_entries(),
        entries(vec![("a", TypedValue::String("new".to_string())), ("b", TypedValue::Int64(2))])
    );
}

#[test]
fn names_differ_by_case_and_by_white_space() {
    let mut doc = Document::new();
    doc.insert("a".to_string(), TypedValue::Int64(1));
    doc.insert("A".to_string(), TypedValue::Int64(2));
    doc.insert("a ".to_string(), TypedValue::Int64(3));
    doc.insert("".to_string(), TypedValue::Int64(4));
    assert_eq!(doc.len(), 4);
    assert_eq!(doc.get(""), Some(&TypedValue::Int64(4)));
    assert_eq!(doc.get("A"), Some(&TypedValue::Int64(2)));
}

#[test]
fn users_row_becomes_a_document() {
    let row = Row {
        cells: vec![
            (column("id", "INTEGER", "INTEGER"), integer(1)),
            (column("name", "TEXT", "TEXT"), text("Alice")),
            (column("active", "BOOLEAN", "INTEGER"), integer(1)),
        ],
    };
    let doc = create_mongo_document(&row, false).unwrap();
    assert_eq!(
        doc,
        document(vec![
            ("id", TypedValue::Int64(1)),
            ("name", TypedValue::String("Alice".to_string())),
            ("active", TypedValue::Bool(true)),
        ])
    );
    assert_eq!(
        doc.into_entries(),
        entries(vec![
            ("id", TypedValue::Int64(1)),
            ("name", TypedValue::String("Alice".to_string())),
            ("active", TypedValue::Bool(true)),
        ])
    );
}

#[test]
fn row_without_columns_becomes_an_empty_document() {
    let row = Row { cells: vec![] };
    assert_eq!(create_mongo_document(&row, false), Ok(Document::new()));
    assert_eq!(create_mongo_document(&row, true), Ok(Document::new()));
}

#[test]
fn field_names_follow_the_casing_flag() {
    let row = Row {
        cells: vec![
            (column("user_id", "INTEGER", "INTEGER"), integer(5)),
            (column("First Name", "TEXT", "TEXT"), text("Bo")),
            (column("isActive", "BOOLEAN", "TEXT"), text("t")),
        ],
    };
    assert_eq!(
        create_mongo_document(&row, true).unwrap().into_entries(),
        entries(vec![
            ("userId", TypedValue::Int64(5)),
            ("firstName", TypedValue::String("Bo".to_string())),
            ("isActive", TypedValue::Bool(true)),
        ])
    );
    assert_eq!(
        create_mongo_document(&row, false).unwrap().into_entries(),
        entries(vec![
            ("user_id", TypedValue::Int64(5)),
            ("First Name", TypedValue::String("Bo".to_string())),
            ("isActive", TypedValue::Bool(true)),
        ])
    );
}

#[test]
fn colliding_field_names_keep_the_first_place_and_the_last_value() {
    let row = Row {
        cells: vec![
            (column("user_id", "INTEGER", "INTEGER"), integer(1)),
            (column("other", "INTEGER", "INTEGER"), integer(2)),
            (column("userId", "INTEGER", "INTEGER"), integer(3)),
        ],
    };
    assert_eq!(
        create_mongo_document(&row, true).unwrap().into_entries(),
        entries(vec![("userId", TypedValue::Int64(3)), ("other", TypedValue::Int64(2))])
    );
    assert_eq!(create_mongo_document(&row, false).unwrap().len(), 3);
}

#[test]
fn every_column_has_its_field_and_the_last_of_a_name_decides() {
    let null = RawCell { stored: Stored::Null, instant: None };
    let row = Row {
        cells: vec![
            (column("a_b", "INTEGER", "INTEGER"), integer(1)),
            (column("c", "TEXT", "TEXT"), text("x")),
            (column("aB", "WHATEVER", "WHATEVER"), null.clone()),
            (column("A_B", "INTEGER", "TEXT"), text("last")),
            (column("d", "NULL", "INTEGER"), integer(4)),
        ],
    };
    let doc = create_mongo_document(&row, true).unwrap();
    assert_eq!(doc.len(), 3);
    assert_eq!(doc.get("aB"), Some(&TypedValue::String("last".to_string())));
    assert_eq!(doc.get("c"), Some(&TypedValue::String("x".to_string())));
    assert_eq!(doc.get("d"), Some(&TypedValue::Int64(4)));

    let doc = create_mongo_document(&row, false).unwrap();
    assert_eq!(doc.len(), 5);
    assert_eq!(doc.get("a_b"), Some(&TypedValue::Int64(1)));
    assert_eq!(doc.get("aB"), Some(&TypedValue::Null));
    assert_eq!(doc.get("A_B"), Some(&TypedValue::String("last".to_string())));
}

#[test]
fn null_cells_become_null_fields() {
    let row = Row {
        cells: vec![
            (column("a", "INTEGER", "INTEGER"), RawCell { stored: Stored::Null, instant: None }),
            (column("b", "NO SUCH TYPE", "NO SUCH TYPE"), RawCell { stored: Stored::Null, instant: None }),
        ],
    };
    assert_eq!(
        create_mongo_document(&row, false).unwrap().into_entries(),
        entries(vec![("a", TypedValue::Null), ("b", TypedValue::Null)])
    );
}

#[test]
fn unreadable_cell_fails_the_row_with_its_column() {
    let row = Row {
        cells: vec![
            (column("id", "INTEGER", "INTEGER"), integer(1)),
            (column("price", "NUMERIC", "DECIMAL"), integer(2)),
            (column("other", "MONEY", "WEIRD"), integer(3)),
        ],
    };
    assert_eq!(
        create_mongo_document(&row, false),
        Err(ColumnError { column: "price".to_string(), sql_type: "NUMERIC".to_string() })
    );
    // The error names the column as the source has it, not its field name.
    let row = Row { cells: vec![(column("unit_price", "NULL", "DECIMAL"), integer(2))] };
    assert_eq!(
        create_mongo_document(&row, true),
        Err(ColumnError { column: "unit_price".to_string(), sql_type: "DECIMAL".to_string() })
    );
}

#[test]
fn building_a_document_twice_gives_the_same_document() {
    let row = Row {
        cells: vec![
            (column("id", "INTEGER", "INTEGER"), integer(1)),
            (column("when", "DATETIME", "TEXT"), RawCell {
                stored: Stored::Text("1970-01-01 00:00:01".to_string()),
                instant: Some(1000),
            }),
            (column("raw", "BLOB", "BLOB"), RawCell { stored: Stored::Blob(vec![1, 2, 3]), instant: None }),
        ],
    };
    let first = create_mongo_document(&row, true).unwrap();
    let second = create_mongo_document(&row, true).unwrap();
    assert_eq!(first, second);
    assert_eq!(first.get("when"), Some(&TypedValue::DateTime(1000)));
    assert_eq!(first.get("raw"), Some(&TypedValue::Binary(vec![1, 2, 3])));
}
