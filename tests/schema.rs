use weekend_db::{WDBError, WDBRow, WDBSchema, WDBTable, WDBType, WDBValue};

fn int_text_schema() -> WDBSchema {
    WDBSchema::new(vec![WDBType::Integer, WDBType::Text])
}

#[test]
fn schema_keeps_column_order() {
    let schema = WDBSchema::new(vec![WDBType::Text, WDBType::Integer, WDBType::Text]);
    assert_eq!(schema.columns(), &[WDBType::Text, WDBType::Integer, WDBType::Text][..]);
}

#[test]
fn validate_accepts_conforming_row() {
    let row: WDBRow = (1u64, "x").into();
    assert_eq!(int_text_schema().validate(&row), Ok(()));
}

#[test]
fn validate_rejects_arity() {
    let short: WDBRow = (1u64,).into();
    assert_eq!(
        int_text_schema().validate(&short),
        Err(WDBError::ArityMismatch { expected: 2, found: 1 })
    );
    let long: WDBRow = (1u64, "x", 2u64).into();
    assert_eq!(
        int_text_schema().validate(&long),
        Err(WDBError::ArityMismatch { expected: 2, found: 3 })
    );
}

#[test]
fn validate_reports_first_type_mismatch() {
    let row = WDBRow::new(vec![WDBValue::Text("x".to_owned()), WDBValue::Integer(1)]);
    assert_eq!(int_text_schema().validate(&row), Err(WDBError::TypeMismatch { column: 0 }));
    let row = WDBRow::new(vec![WDBValue::Integer(1), WDBValue::Integer(1)]);
    assert_eq!(int_text_schema().validate(&row), Err(WDBError::TypeMismatch { column: 1 }));
}

#[test]
fn add_rejects_wrong_arity() {
    let mut table = WDBTable::new(int_text_schema());
    let row: WDBRow = (1u64,).into();
    assert_eq!(
        table.add(row).err(),
        Some(WDBError::ArityMismatch { expected: 2, found: 1 })
    );
    assert_eq!(table.rows().len(), 0);
}

#[test]
fn add_rejects_wrong_types() {
    let mut table = WDBTable::new(int_text_schema());
    let row = WDBRow::new(vec![WDBValue::Text("x".to_owned()), WDBValue::Integer(1)]);
    assert_eq!(table.add(row).err(), Some(WDBError::TypeMismatch { column: 0 }));
    assert_eq!(table.rows().len(), 0);
}

#[test]
fn add_keeps_insertion_order_and_chains() {
    let mut table = WDBTable::new(int_text_schema());
    let a: WDBRow = (1u64, "a").into();
    let b: WDBRow = (2u64, "b").into();
    let c: WDBRow = (3u64, "c").into();
    table.add(a.clone()).unwrap().add(b.clone()).unwrap();
    table.add(c.clone()).unwrap();
    assert_eq!(table.rows(), &[a, b, c][..]);
}
