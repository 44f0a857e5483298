//! Column metadata, row decoding and row lookup.

use crossdb::column::{Column, Columns, DataType};
use crossdb::error::Error;
use crossdb::query::Query;
use crossdb::row::{Row, ValueIndex};
use crossdb::value::{RawCell, Value};

fn users_columns() -> Columns {
    Columns::new(vec![
        Column::new("id".to_string(), DataType::Int),
        Column::new("name".to_string(), DataType::VChar),
        Column::new("age".to_string(), DataType::TinyInt),
    ])
}

fn int_cell(v: i32) -> RawCell {
    RawCell { null: false, data: v.to_le_bytes().to_vec(), blob_len: 0 }
}

fn text_cell(s: &str) -> RawCell {
    let mut data = s.as_bytes().to_vec();
    data.push(0);
    RawCell { null: false, data, blob_len: 0 }
}

fn tiny_cell(v: i8) -> RawCell {
    RawCell { null: false, data: vec![v as u8], blob_len: 0 }
}

fn alex_row(query: &Query) -> Row {
    let cells = vec![int_cell(1), text_cell("Alex"), tiny_cell(18)];
    query.decode_row(&cells).unwrap()
}

#[test]
fn columns_expose_names_and_types_in_order() {
    let cols = users_columns();
    assert_eq!(cols.len(), 3);
    assert_eq!(cols.name(0), "id");
    assert_eq!(cols.name(1), "name");
    assert_eq!(cols.name(2), "age");
    assert_eq!(cols.datatype(0), DataType::Int);
    assert_eq!(cols.datatype(1), DataType::VChar);
    assert_eq!(cols.datatype(2), DataType::TinyInt);
}

#[test]
fn columns_iterate_in_declaration_order() {
    let cols = users_columns();
    let mut it = cols.iter();
    let mut seen = Vec::new();
    while let Some(c) = it.next() {
        seen.push((c.name().to_string(), c.datatype()));
    }
    assert_eq!(
        seen,
        vec![
            ("id".to_string(), DataType::Int),
            ("name".to_string(), DataType::VChar),
            ("age".to_string(), DataType::TinyInt),
        ]
    );
}

#[test]
fn columns_into_inner_returns_sole_copy() {
    let cols = users_columns();
    let inner = cols.into_inner().unwrap();
    assert_eq!(inner.len(), 3);
    assert_eq!(inner[1].name(), "name");

    let shared = users_columns();
    let other = shared.clone();
    assert!(shared.into_inner().is_none());
    assert_eq!(other.len(), 3);
}

#[test]
fn query_reports_counts_and_columns() {
    let q = Query::new(users_columns(), 3, 7);
    assert_eq!(q.column_count(), 3);
    assert_eq!(q.row_count(), 3);
    assert_eq!(q.affected_rows(), 7);
    assert_eq!(q.columns().name(1), "name");
}

#[test]
fn scenario_users_row_decodes_to_typed_values() {
    let q = Query::new(users_columns(), 1, 0);
    let row = alex_row(&q);
    assert_eq!(
        row.values(),
        &vec![Value::I32(1), Value::String("Alex".to_string()), Value::I8(18)]
    );
    assert_eq!(row.get(0), &Value::I32(1));
    assert_eq!(row.get("name"), &Value::String("Alex".to_string()));
    assert_eq!(row.get("age"), &Value::I8(18));
}

#[test]
fn scenario_null_indicator_on_vchar_decodes_to_null() {
    let q = Query::new(users_columns(), 1, 0);
    let cells = vec![
        int_cell(2),
        RawCell { null: true, data: Vec::new(), blob_len: 0 },
        tiny_cell(22),
    ];
    let row = q.decode_row(&cells).unwrap();
    assert_eq!(row.get(1), &Value::Null);
}

#[test]
fn row_has_one_value_per_column() {
    let q = Query::new(users_columns(), 1, 0);
    let row = alex_row(&q);
    assert_eq!(row.values().len(), row.columns().len());
    for i in 0..row.values().len() {
        assert_eq!(row.get(i), &row.values()[i]);
        assert_eq!(row.try_get(i), Some(&row.values()[i]));
    }
}

#[test]
fn lookup_by_absent_name_or_index_is_none() {
    let q = Query::new(users_columns(), 1, 0);
    let row = alex_row(&q);
    assert_eq!(row.try_get("missing"), None);
    assert_eq!(row.try_get(3), None);
    assert_eq!(row.try_get(usize::MAX), None);
}

#[test]
fn lookup_by_duplicate_name_takes_first_column() {
    let cols = Columns::new(vec![
        Column::new("x".to_string(), DataType::Int),
        Column::new("x".to_string(), DataType::Int),
    ]);
    let q = Query::new(cols, 1, 0);
    let row = q.decode_row(&vec![int_cell(10), int_cell(20)]).unwrap();
    assert_eq!(row.try_get("x"), Some(&Value::I32(10)));
    assert_eq!(row.try_get(ValueIndex::ColumnName("x")), Some(&Value::I32(10)));
    assert_eq!(row.try_get(ValueIndex::ColumnIndex(1)), Some(&Value::I32(20)));
}

#[test]
fn decode_row_propagates_the_first_failing_cell() {
    let q = Query::new(users_columns(), 1, 0);
    let bad_text = RawCell { null: false, data: vec![0xC3, 0x28, 0], blob_len: 0 };
    let cells = vec![int_cell(1), bad_text, RawCell { null: false, data: vec![], blob_len: 0 }];
    assert_eq!(q.decode_row(&cells).unwrap_err(), Error::Utf8);
}

#[test]
fn decode_row_rejects_a_wrong_cell_count() {
    let q = Query::new(users_columns(), 1, 0);
    assert_eq!(q.decode_row(&vec![int_cell(1)]).unwrap_err(), Error::ContractViolation);
}

#[test]
fn test_deserialize_row() {
    // The map-like bridge walks a row as (column name, value) pairs in
    // declaration order and signals the end once the columns are
    // exhausted; a record built from those pairs sees every field.
    let q = Query::new(users_columns(), 1, 0);
    let row = alex_row(&q);
    let columns = row.columns();
    let mut fields = Vec::new();
    let mut index = 0;
    loop {
        if index >= columns.len() {
            break;
        }
        let key = columns.name(index).to_string();
        let value = row.try_get(index).unwrap().clone();
        fields.push((key, value));
        index += 1;
    }
    assert_eq!(
        fields,
        vec![
            ("id".to_string(), Value::I32(1)),
            ("name".to_string(), Value::String("Alex".to_string())),
            ("age".to_string(), Value::I8(18)),
        ]
    );
    assert_eq!(row.try_get(index), None);
}

#[test]
fn from_raw_builds_columns_and_rejects_bad_metadata() {
    let raw = vec![
        (b"id\0".to_vec(), 3u32),
        (b"name\0".to_vec(), 14u32),
    ];
    let cols = Columns::from_raw(raw).unwrap();
    assert_eq!(cols.len(), 2);
    assert_eq!(cols.name(0), "id");
    assert_eq!(cols.datatype(0), DataType::Int);
    assert_eq!(cols.name(1), "name");
    assert_eq!(cols.datatype(1), DataType::VChar);

    // A name that is not valid UTF-8 is an encoding error.
    let bad_text = vec![(vec![0xC3, 0x28, 0], 3u32)];
    assert!(matches!(Columns::from_raw(bad_text), Err(Error::Utf8)));
    // A name without a terminator, or an unmapped type code, violates
    // the wire contract.
    let no_nul = vec![(b"id".to_vec(), 3u32)];
    assert!(matches!(Columns::from_raw(no_nul), Err(Error::ContractViolation)));
    let bad_code = vec![(b"id\0".to_vec(), 22u32)];
    assert!(matches!(Columns::from_raw(bad_code), Err(Error::ContractViolation)));
}
