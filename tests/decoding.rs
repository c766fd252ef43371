use crabybase_db::decode::{
    classify, decode_cell, parse_blob_column, parse_column, parse_integer_column,
    parse_json_column, parse_real_column, parse_text_column, Cell, ColumnMeta, DecodeError,
    Float, Leaf, Strategy,
};
use crabybase_db::record::{classify_columns, parse_row, parse_rows_dynamic, Record};
use serde_json::Value;

fn col(name: &str, label: Option<&str>) -> ColumnMeta {
    ColumnMeta { name: name.to_string(), decl_type: label.map(|l| l.to_string()) }
}

fn text(s: &str) -> Cell {
    Cell::Text(s.to_string())
}

fn get<'a>(rec: &'a Record, key: &str) -> Option<&'a Leaf> {
    rec.entries.iter().find(|e| e.0 == key).map(|e| &e.1)
}

#[test]
fn labels_select_their_strategies() {
    assert_eq!(classify(&Some("JSON".to_string())), Some(Strategy::JsonText));
    assert_eq!(classify(&Some("TEXT".to_string())), Some(Strategy::PlainText));
    assert_eq!(classify(&Some("INTEGER".to_string())), Some(Strategy::Integer));
    assert_eq!(classify(&Some("REAL".to_string())), Some(Strategy::Real));
    assert_eq!(classify(&Some("BLOB".to_string())), Some(Strategy::Blob));
}

#[test]
fn unknown_and_absent_labels_are_unsupported() {
    assert_eq!(classify(&Some("FOO".to_string())), None);
    assert_eq!(classify(&Some("integer".to_string())), None);
    assert_eq!(classify(&Some(String::new())), None);
    assert_eq!(classify(&None), None);
}

#[test]
fn integer_cell_decodes_to_integer_leaf() {
    let row = vec![Cell::Integer(42)];
    assert_eq!(parse_integer_column(&row, 0), Ok(Leaf::Integer(42)));
}

#[test]
fn text_cell_decodes_verbatim() {
    let row = vec![text("hi"), text("  spaced \"quoted\"  ")];
    assert_eq!(parse_text_column(&row, 0), Ok(Leaf::Text("hi".to_string())));
    assert_eq!(
        parse_text_column(&row, 1),
        Ok(Leaf::Text("  spaced \"quoted\"  ".to_string()))
    );
}

#[test]
fn json_cell_decodes_to_list_leaf() {
    let row = vec![text("[1,2]")];
    let expected = Value::Array(vec![Value::from(1), Value::from(2)]);
    assert_eq!(parse_json_column(&row, 0), Ok(Leaf::Json(expected)));
}

#[test]
fn json_cell_parse_is_not_the_text_itself() {
    let row = vec![text("\"hi\"")];
    assert_eq!(parse_json_column(&row, 0), Ok(Leaf::Json(Value::from("hi"))));
}

#[test]
fn blob_cell_decodes_to_bytes() {
    let row = vec![Cell::Blob(vec![0x00, 0xFF])];
    assert_eq!(parse_blob_column(&row, 0), Ok(Leaf::Bytes(vec![0x00, 0xFF])));
    let empty = vec![Cell::Blob(vec![])];
    assert_eq!(parse_blob_column(&empty, 0), Ok(Leaf::Bytes(vec![])));
}

#[test]
fn real_with_zero_fraction_stays_float() {
    let bits = 3.0f64.to_bits();
    let row = vec![Cell::Real(bits)];
    assert_eq!(parse_real_column(&row, 0), Ok(Leaf::Real(Float::Bits(bits))));
    let ints = vec![Cell::Integer(7)];
    assert_eq!(parse_real_column(&ints, 0), Ok(Leaf::Real(Float::OfInteger(7))));
}

#[test]
fn mismatched_cells_are_invalid_column_type() {
    let row = vec![Cell::Null, text("12"), Cell::Real(1.5f64.to_bits()), Cell::Blob(vec![1])];
    assert_eq!(parse_integer_column(&row, 0), Err(DecodeError::InvalidColumnType { column: 0 }));
    assert_eq!(parse_integer_column(&row, 1), Err(DecodeError::InvalidColumnType { column: 1 }));
    assert_eq!(parse_integer_column(&row, 2), Err(DecodeError::InvalidColumnType { column: 2 }));
    assert_eq!(parse_text_column(&row, 3), Err(DecodeError::InvalidColumnType { column: 3 }));
    assert_eq!(parse_blob_column(&row, 1), Err(DecodeError::InvalidColumnType { column: 1 }));
    assert_eq!(parse_real_column(&row, 1), Err(DecodeError::InvalidColumnType { column: 1 }));
    assert_eq!(parse_json_column(&row, 0), Err(DecodeError::InvalidColumnType { column: 0 }));
}

#[test]
fn malformed_json_is_invalid_json() {
    let row = vec![text("{\"a\":"), text("")];
    assert_eq!(parse_json_column(&row, 0), Err(DecodeError::InvalidJson { column: 0 }));
    assert_eq!(parse_json_column(&row, 1), Err(DecodeError::InvalidJson { column: 1 }));
}

#[test]
fn decode_cell_dispatches_by_strategy() {
    let row = vec![Cell::Integer(5)];
    assert_eq!(decode_cell(Strategy::Integer, &row, 0), Ok(Leaf::Integer(5)));
    assert_eq!(decode_cell(Strategy::Real, &row, 0), Ok(Leaf::Real(Float::OfInteger(5))));
    assert_eq!(
        decode_cell(Strategy::PlainText, &row, 0),
        Err(DecodeError::InvalidColumnType { column: 0 })
    );
}

#[test]
fn parse_column_rejects_unsupported_label() {
    let row = vec![Cell::Integer(5)];
    assert_eq!(
        parse_column(&row, &col("x", Some("FOO")), 0),
        Err(DecodeError::UnsupportedColumnType { column: 0 })
    );
    assert_eq!(
        parse_column(&row, &col("x", None), 0),
        Err(DecodeError::UnsupportedColumnType { column: 0 })
    );
    assert_eq!(parse_column(&row, &col("x", Some("INTEGER")), 0), Ok(Leaf::Integer(5)));
}

#[test]
fn classify_columns_names_first_unsupported() {
    let cols = vec![col("a", Some("TEXT")), col("b", Some("FOO")), col("c", None)];
    assert_eq!(classify_columns(&cols), Err(DecodeError::UnsupportedColumnType { column: 1 }));
    let ok = vec![col("a", Some("TEXT")), col("b", Some("BLOB"))];
    assert_eq!(classify_columns(&ok), Ok(vec![Strategy::PlainText, Strategy::Blob]));
}

#[test]
fn unsupported_label_fails_before_any_row() {
    let cols = vec![col("id", Some("INTEGER")), col("v", Some("FOO"))];
    let none: Vec<Vec<Cell>> = vec![];
    assert_eq!(
        parse_rows_dynamic(&cols, &none),
        Err(DecodeError::UnsupportedColumnType { column: 1 })
    );
    let bad_rows = vec![vec![Cell::Null, Cell::Null]];
    assert_eq!(
        parse_rows_dynamic(&cols, &bad_rows),
        Err(DecodeError::UnsupportedColumnType { column: 1 })
    );
}

#[test]
fn round_trip_of_list_and_nested_mapping() {
    let list = Value::Array(vec![Value::from(3), Value::from("x"), Value::Bool(false), Value::Null]);
    let mut inner = serde_json::Map::new();
    inner.insert("k".to_string(), Value::Array(vec![Value::from(1.5), Value::from(-2)]));
    let mut outer = serde_json::Map::new();
    outer.insert("z".to_string(), Value::Object(inner));
    outer.insert("a".to_string(), Value::from("b"));
    let mapping = Value::Object(outer);
    let row = vec![text(&list.to_string()), text(&mapping.to_string())];
    assert_eq!(parse_json_column(&row, 0), Ok(Leaf::Json(list)));
    assert_eq!(parse_json_column(&row, 1), Ok(Leaf::Json(mapping)));
}

#[test]
fn decoding_same_row_twice_is_identical() {
    let cols = vec![col("id", Some("INTEGER")), col("doc", Some("JSON")), col("b", Some("BLOB"))];
    let row = vec![Cell::Integer(9), text("{\"n\":[1,{\"m\":null}]}"), Cell::Blob(vec![4, 5])];
    let first = parse_row(&cols, &row);
    let second = parse_row(&cols, &row);
    assert!(first.is_ok());
    assert_eq!(first, second);
}

#[test]
fn empty_result_set_is_empty_list() {
    let cols = vec![col("id", Some("INTEGER")), col("payload", Some("JSON"))];
    let rows: Vec<Vec<Cell>> = vec![];
    assert_eq!(parse_rows_dynamic(&cols, &rows), Ok(vec![]));
    let no_cols: Vec<ColumnMeta> = vec![];
    assert_eq!(parse_rows_dynamic(&no_cols, &rows), Ok(vec![]));
}

#[test]
fn duplicate_column_name_last_write_wins() {
    let cols = vec![col("id", Some("INTEGER")), col("id", Some("INTEGER"))];
    let row = vec![Cell::Integer(1), Cell::Integer(2)];
    let rec = parse_row(&cols, &row).unwrap();
    assert_eq!(rec.entries.len(), 1);
    assert_eq!(get(&rec, "id"), Some(&Leaf::Integer(2)));
}

#[test]
fn end_to_end_id_and_payload() {
    let cols = vec![col("id", Some("INTEGER")), col("payload", Some("JSON"))];
    let rows = vec![vec![Cell::Integer(1), text("{\"a\":true}")]];
    let out = parse_rows_dynamic(&cols, &rows).unwrap();
    assert_eq!(out.len(), 1);
    let mut payload = serde_json::Map::new();
    payload.insert("a".to_string(), Value::Bool(true));
    let expected = Record {
        entries: vec![
            ("id".to_string(), Leaf::Integer(1)),
            ("payload".to_string(), Leaf::Json(Value::Object(payload))),
        ],
    };
    assert_eq!(out[0], expected);
}

#[test]
fn rows_keep_their_order_and_first_error_wins() {
    let cols = vec![col("n", Some("INTEGER"))];
    let rows = vec![vec![Cell::Integer(3)], vec![Cell::Integer(1)], vec![Cell::Integer(2)]];
    let out = parse_rows_dynamic(&cols, &rows).unwrap();
    let got: Vec<Option<&Leaf>> = out.iter().map(|r| get(r, "n")).collect();
    assert_eq!(got, vec![Some(&Leaf::Integer(3)), Some(&Leaf::Integer(1)), Some(&Leaf::Integer(2))]);
    let bad = vec![vec![Cell::Integer(3)], vec![text("x")], vec![Cell::Null]];
    assert_eq!(parse_rows_dynamic(&cols, &bad), Err(DecodeError::InvalidColumnType { column: 0 }));
}

#[test]
fn record_insert_overwrites_in_place() {
    let mut rec = Record::new();
    rec.insert("a".to_string(), Leaf::Integer(1));
    rec.insert("b".to_string(), Leaf::Integer(2));
    rec.insert("a".to_string(), Leaf::Text("x".to_string()));
    assert_eq!(
        rec.entries,
        vec![("a".to_string(), Leaf::Text("x".to_string())), ("b".to_string(), Leaf::Integer(2))]
    );
}
