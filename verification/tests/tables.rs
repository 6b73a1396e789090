use srimdb::database::DataDB;
use srimdb::field::Field;
use srimdb::{ApplyError, Delta, FieldKind, IntSize, Query, Row, SrimDB, Table, TableField, Value};

fn users() -> Table {
    Table::new(
        "Users",
        vec![
            TableField::new("id", FieldKind::Integer(IntSize::N64, false)),
            TableField::new("name", FieldKind::Text),
            TableField::new("id", FieldKind::Integer(IntSize::N8, true)),
        ],
    )
}

#[test]
fn integer_sizes_in_bytes() {
    assert_eq!(IntSize::N8.size_bytes(), 1);
    assert_eq!(IntSize::N16.size_bytes(), 2);
    assert_eq!(IntSize::N32.size_bytes(), 4);
    assert_eq!(IntSize::N64.size_bytes(), 8);
    assert_eq!(IntSize::N128.size_bytes(), 16);
}

#[test]
fn only_integers_have_a_constant_size() {
    assert_eq!(FieldKind::Integer(IntSize::N32, true).constant_size_bytes(), Some(4));
    assert_eq!(FieldKind::Integer(IntSize::N128, false).constant_size_bytes(), Some(16));
    assert_eq!(FieldKind::Real.constant_size_bytes(), None);
    assert_eq!(FieldKind::Text.constant_size_bytes(), None);
    assert_eq!(FieldKind::Blob.constant_size_bytes(), None);
    assert_eq!(FieldKind::ForeignKey("Users".to_owned()).constant_size_bytes(), None);
}

#[test]
fn field_kinds_compare_by_what_they_hold() {
    assert_eq!(FieldKind::Integer(IntSize::N32, true), FieldKind::Integer(IntSize::N32, true));
    assert_ne!(FieldKind::Integer(IntSize::N32, true), FieldKind::Integer(IntSize::N32, false));
    assert_ne!(FieldKind::Integer(IntSize::N32, true), FieldKind::Integer(IntSize::N64, true));
    assert_ne!(FieldKind::Text, FieldKind::Blob);
    assert_eq!(FieldKind::ForeignKey("A".to_owned()), FieldKind::ForeignKey("A".to_owned()));
    assert_ne!(FieldKind::ForeignKey("A".to_owned()), FieldKind::ForeignKey("B".to_owned()));
    assert_eq!(FieldKind::ForeignKey("A".to_owned()).clone(), FieldKind::ForeignKey("A".to_owned()));
}

#[test]
fn field_shapes_are_copied_in_depth() {
    let shape = Field::ForeignKey(vec![
        Field::Integer(IntSize::N64, false),
        Field::ForeignKey(vec![Field::Text, Field::Blob, Field::Real]),
    ]);
    let copy = shape.clone();
    assert_eq!(format!("{:?}", copy), format!("{:?}", shape));
    assert_eq!(format!("{:?}", shape.duplicate()), format!("{:?}", shape));
}

#[test]
fn tables_know_their_fields() {
    let table = users();
    assert_eq!(table.name(), "Users");
    assert_eq!(table.fields().len(), 3);
    assert_eq!(table.fields()[1].name(), "name");
    assert_eq!(table.fields()[1].kind(), FieldKind::Text);
    assert_eq!(table.fields()[2], TableField::new("id", FieldKind::Integer(IntSize::N8, true)));
    assert_eq!(table.field_index("id".to_owned()), Some(0));
    assert_eq!(table.field_index("name".to_owned()), Some(1));
    assert_eq!(table.field_index("age".to_owned()), None);
    assert_eq!(table.key_field_mask(), &vec![true, true, true]);
    assert_eq!(table.clone(), table);
}

#[test]
fn key_fields_are_the_first_of_their_name() {
    let table = users().with_key_fields(vec!["id".to_owned()]);
    assert_eq!(table.key_field_mask(), &vec![true, false, false]);
    assert_eq!(table.name(), "Users");
    assert_eq!(table.fields(), users().fields());
    let table = users().with_key_fields(vec!["name".to_owned(), "id".to_owned(), "name".to_owned()]);
    assert_eq!(table.key_field_mask(), &vec![true, true, false]);
    let table = users().with_key_fields(vec![]);
    assert_eq!(table.key_field_mask(), &vec![false, false, false]);
    assert_ne!(table, users());
}

#[test]
fn rows_pick_columns() {
    let row = Row::new(vec![
        Value::Unsigned(1),
        Value::Text("one".to_owned()),
        Value::Boolean(true),
    ]);
    assert_eq!(row.len(), 3);
    assert_eq!(row.values().len(), 3);
    assert_eq!(
        row.pick_columns(&vec![2, 0, 2]),
        Row::new(vec![Value::Boolean(true), Value::Unsigned(1), Value::Boolean(true)])
    );
    assert_eq!(row.pick_columns(&vec![]), Row::new(vec![]));
    assert_eq!(row.clone(), row);
    assert_ne!(row, Row::new(vec![Value::Unsigned(1)]));
}

#[test]
fn creating_a_table_twice_changes_nothing() {
    let mut db = DataDB::new();
    assert_eq!(db.table_index("Users".to_owned()), None);
    db.create_table(users()).unwrap();
    db.add_row(
        "Users".to_owned(),
        Row::new(vec![Value::Unsigned(1), Value::Text("a".to_owned()), Value::Signed(1)]),
    )
    .unwrap();
    db.create_table(users()).unwrap();
    assert_eq!(db.table_index("Users".to_owned()), Some(0));
    assert_eq!(db.all_rows("Users".to_owned()).unwrap().len(), 1);
    match db.create_table(users().with_key_fields(vec!["name".to_owned()])) {
        Err(ApplyError::AddCannotModify(name)) => assert_eq!(name, "Users"),
        _ => panic!("the table exists with another key"),
    }
    match db.create_table(Table::new("Users", vec![])) {
        Err(ApplyError::AddCannotModify(name)) => assert_eq!(name, "Users"),
        _ => panic!("the table exists with other fields"),
    }
    assert_eq!(db.table("Users".to_owned()), Some(users()));
    assert_eq!(db.table_by_index(0), users());
    assert_eq!(db.table("Other".to_owned()), None);
    assert_eq!(db.all_rows("Other".to_owned()), None);
}

#[test]
fn dropping_a_table_drops_its_rows() {
    let mut db = DataDB::new();
    db.create_table(Table::new("A", vec![TableField::new("x", FieldKind::Text)])).unwrap();
    db.create_table(Table::new("B", vec![TableField::new("y", FieldKind::Text)])).unwrap();
    db.create_table(Table::new("C", vec![TableField::new("z", FieldKind::Text)])).unwrap();
    for (table, text) in [("A", "a"), ("B", "b"), ("C", "c"), ("B", "bb")] {
        db.add_row(table.to_owned(), Row::new(vec![Value::Text(text.to_owned())])).unwrap();
    }
    assert_eq!(db.table_index("C".to_owned()), Some(2));
    db.drop_table("B".to_owned()).unwrap();
    assert_eq!(db.table_index("A".to_owned()), Some(0));
    assert_eq!(db.table_index("B".to_owned()), None);
    assert_eq!(db.table_index("C".to_owned()), Some(1));
    assert_eq!(
        db.all_rows("C".to_owned()).unwrap(),
        vec![Row::new(vec![Value::Text("c".to_owned())])]
    );
    assert_eq!(
        db.all_rows("A".to_owned()).unwrap(),
        vec![Row::new(vec![Value::Text("a".to_owned())])]
    );
    match db.drop_table("B".to_owned()) {
        Err(ApplyError::NoSuchTable(name)) => assert_eq!(name, "B"),
        _ => panic!("the table is gone"),
    }
    match db.add_row("B".to_owned(), Row::new(vec![Value::Text("b".to_owned())])) {
        Err(ApplyError::NoSuchTable(name)) => assert_eq!(name, "B"),
        _ => panic!("the table is gone"),
    }
    db.create_table(Table::new("B", vec![TableField::new("y", FieldKind::Text)])).unwrap();
    assert_eq!(db.table_index("B".to_owned()), Some(2));
    assert_eq!(db.all_rows("B".to_owned()).unwrap(), vec![]);
}

#[test]
fn a_new_store_holds_the_functions_of_the_engine() {
    let db = DataDB::new();
    let dict = db.function_dict();
    assert_eq!(
        dict.get(&"add".to_owned())
            .unwrap()
            .call(vec![Value::Unsigned(1), Value::Unsigned(2)])
            .unwrap(),
        Value::Unsigned(3)
    );
    assert_eq!(
        dict.get(&"strict_eq".to_owned())
            .unwrap()
            .call(vec![Value::Unsigned(1), Value::Unsigned(2)])
            .unwrap(),
        Value::Boolean(false)
    );
    assert!(dict.get(&"sub".to_owned()).is_none());
}

#[test]
fn the_engine_applies_changes() {
    let mut db = SrimDB::new();
    assert_eq!(db.filepath(), None);
    db.apply(Delta::CreateTable(users())).unwrap();
    db.apply(Delta::AddRow(
        "Users".to_owned(),
        Row::new(vec![Value::Unsigned(1), Value::Text("a".to_owned()), Value::Signed(1)]),
    ))
    .unwrap();
    assert!(matches!(
        db.apply(Delta::AddRow("Nobody".to_owned(), Row::new(vec![]))),
        Err(ApplyError::NoSuchTable(_))
    ));
    assert!(matches!(
        db.apply(Delta::CreateTable(Table::new("Users", vec![]))),
        Err(ApplyError::AddCannotModify(_))
    ));
    assert_eq!(db.query(Query::Table("Users".to_owned())).unwrap().rows().len(), 1);
    assert_eq!(db.data_db().table_index("Users".to_owned()), Some(0));
    db.apply(Delta::DropTable("Users".to_owned())).unwrap();
    assert!(db.query(Query::Table("Users".to_owned())).is_err());
    assert!(matches!(
        db.apply(Delta::DropTable("Users".to_owned())),
        Err(ApplyError::NoSuchTable(_))
    ));
}
