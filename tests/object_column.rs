use object_column::{
    BinaryArray, DataType, JsonColumn, MutableObjectColumn, ObjectColumn, ObjectType,
};
use serde_json::Value;

fn text_column(rows: &[&str]) -> ObjectColumn<String> {
    ObjectColumn::new_from_vec(rows.iter().map(|s| s.to_string()).collect())
}

fn json_column(rows: &[i64]) -> JsonColumn {
    ObjectColumn::new_from_vec(rows.iter().map(|n| Value::from(*n)).collect())
}

fn texts(column: &ObjectColumn<String>) -> Vec<&str> {
    column.values().iter().map(|s| s.as_str()).collect()
}

fn numbers(column: &JsonColumn) -> Vec<i64> {
    column.values().iter().map(|v| v.as_i64().unwrap()).collect()
}

#[test]
fn filter_keeps_marked_rows() {
    let column = text_column(&["a", "b", "c"]);
    let kept = column.filter(&[true, false, true]);
    assert_eq!(texts(&kept), vec!["a", "c"]);
    assert_eq!(kept.len(), 2);
}

#[test]
fn filter_selecting_every_row_keeps_column() {
    let column = text_column(&["a", "b", "c"]);
    let kept = column.filter(&[true, true, true]);
    assert_eq!(texts(&kept), vec!["a", "b", "c"]);
}

#[test]
fn filter_selecting_no_row_is_empty() {
    let column = text_column(&["a", "b"]);
    let kept = column.filter(&[false, false]);
    assert_eq!(kept.len(), 0);
    let empty = text_column(&[]);
    assert_eq!(empty.filter(&[]).len(), 0);
}

#[test]
fn scatter_into_buckets() {
    let column = json_column(&[1, 2, 3]);
    let buckets = column.scatter(&[0, 1, 0], 2);
    assert_eq!(buckets.len(), 2);
    assert_eq!(numbers(&buckets[0]), vec![1, 3]);
    assert_eq!(numbers(&buckets[1]), vec![2]);
}

#[test]
fn scatter_leaves_unused_buckets_empty() {
    let column = json_column(&[5, 6, 7, 8]);
    let buckets = column.scatter(&[2, 2, 0, 2], 4);
    assert_eq!(buckets.len(), 4);
    assert_eq!(numbers(&buckets[0]), vec![7]);
    assert_eq!(buckets[1].len(), 0);
    assert_eq!(numbers(&buckets[2]), vec![5, 6, 8]);
    assert_eq!(buckets[3].len(), 0);
    let total: usize = buckets.iter().map(|b| b.len()).sum();
    assert_eq!(total, column.len());
}

#[test]
fn replicate_repeats_rows() {
    let column = text_column(&["x", "y"]);
    let out = column.replicate(&[2, 5]);
    assert_eq!(texts(&out), vec!["x", "x", "y", "y", "y"]);
    assert_eq!(out.len(), 5);
}

#[test]
fn replicate_offsets_are_cumulative_ends() {
    let column = text_column(&["x", "y"]);
    let out = column.replicate(&[2, 3]);
    assert_eq!(texts(&out), vec!["x", "x", "y"]);
    assert_eq!(out.len(), 3);
}

#[test]
fn replicate_with_zero_copies_and_empty_offsets() {
    let column = text_column(&["x", "y", "z"]);
    let out = column.replicate(&[0, 2, 2]);
    assert_eq!(texts(&out), vec!["y", "y"]);
    let empty = text_column(&[]);
    assert_eq!(empty.replicate(&[]).len(), 0);
}

#[test]
fn decode_with_validity() {
    let array = BinaryArray {
        offsets: vec![0, 3, 3, 6],
        values: b"abcdef".to_vec(),
        validity: Some(vec![true, false, true]),
    };
    let column: ObjectColumn<String> = ObjectColumn::new(array);
    assert_eq!(texts(&column), vec!["abc", "", "def"]);
}

#[test]
fn decode_null_row_with_bytes_gives_default() {
    let array = BinaryArray {
        offsets: vec![0, 2, 4],
        values: b"7x8y".to_vec(),
        validity: Some(vec![false, true]),
    };
    let column: ObjectColumn<String> = ObjectColumn::from_arrow_array(&array);
    assert_eq!(texts(&column), vec!["", "8y"]);
}

#[test]
fn decode_invalid_utf8_gives_default() {
    let array = BinaryArray {
        offsets: vec![0, 1, 3],
        values: vec![0xff, b'o', b'k'],
        validity: None,
    };
    let column: ObjectColumn<String> = ObjectColumn::new(array);
    assert_eq!(texts(&column), vec!["", "ok"]);
}

#[test]
fn decode_json_parses_and_defaults_unreadable_text() {
    let array = BinaryArray {
        offsets: vec![0, 2, 3, 11],
        values: b"42{[1,true]".to_vec(),
        validity: None,
    };
    let column: JsonColumn = ObjectColumn::new(array);
    assert_eq!(column.len(), 3);
    assert_eq!(column.values()[0], Value::from(42));
    assert!(column.values()[1].is_null());
    assert_eq!(column.values()[2].to_string(), "[1,true]");
}

#[test]
fn decode_empty_array() {
    let array = BinaryArray { offsets: vec![0], values: vec![], validity: None };
    let column: JsonColumn = ObjectColumn::new(array);
    assert_eq!(column.len(), 0);
}

#[test]
fn slice_is_an_independent_copy() {
    let column = json_column(&[10, 20, 30, 40]);
    let part = column.slice(1, 2);
    assert_eq!(numbers(&part), vec![20, 30]);
    drop(column);
    assert_eq!(numbers(&part), vec![20, 30]);
    let mut source = vec![Value::from(10), Value::from(20), Value::from(30)];
    let column = ObjectColumn::new_from_vec(source.clone());
    let part = column.slice(1, 2);
    source[1] = Value::from(99);
    assert_eq!(numbers(&part), vec![20, 30]);
    assert_eq!(column.slice(4 - 1, 0).len(), 0);
}

#[test]
fn encode_writes_text_and_offsets() {
    let column = text_column(&["ab", "", "héllo"]);
    let array = column.as_arrow_array();
    assert_eq!(array.offsets, vec![0, 2, 2, 8]);
    assert_eq!(array.values, "abhéllo".as_bytes().to_vec());
    assert!(array.validity.is_none());
}

#[test]
fn encode_json_writes_compact_text() {
    let doc: Value = serde_json::from_str("{ \"a\" : [1, 2] }").unwrap();
    let column: JsonColumn =
        ObjectColumn::new_from_vec(vec![Value::from(1), Value::from("s"), doc, Value::Null]);
    let array = column.as_arrow_array();
    assert_eq!(array.values, b"1\"s\"{\"a\":[1,2]}null".to_vec());
    assert_eq!(array.offsets, vec![0, 1, 4, 15, 19]);
}

#[test]
fn round_trip_text() {
    let column = text_column(&["a", "", "ünï", "d e"]);
    let back: ObjectColumn<String> = ObjectColumn::new(column.as_arrow_array());
    assert_eq!(texts(&back), texts(&column));
}

#[test]
fn round_trip_json() {
    let doc: Value = serde_json::from_str("{\"k\":[true,null,\"v\"]}").unwrap();
    let column: JsonColumn =
        ObjectColumn::new_from_vec(vec![doc, Value::from(-3), Value::from("q")]);
    let back: JsonColumn = ObjectColumn::new(column.as_arrow_array());
    assert_eq!(back.values(), column.values());
}

#[test]
fn round_trip_drops_nulls_into_defaults() {
    let array = BinaryArray {
        offsets: vec![0, 1, 2],
        values: b"12".to_vec(),
        validity: Some(vec![true, false]),
    };
    let column: JsonColumn = ObjectColumn::new(array);
    let encoded = column.as_arrow_array();
    assert_eq!(encoded.values, b"1null".to_vec());
    assert!(encoded.validity.is_none());
}

#[test]
fn accessors() {
    let column = text_column(&["p", "q"]);
    assert_eq!(column.get(1), "q");
    assert_eq!(column.value_unchecked(0), "p");
    assert_eq!(column.get_data(1), "q");
    assert_eq!(column.data_type(), DataType::String);
    assert_eq!(json_column(&[1]).data_type(), DataType::Variant);
    let (has_bitmap, bitmap) = column.validity();
    assert!(!has_bitmap);
    assert!(bitmap.is_none());
    assert_eq!(column.memory_size(), 2 * std::mem::size_of::<String>());
    assert_eq!(texts(&column.arc()), vec!["p", "q"]);
    assert_eq!(texts(&column.convert_full_column()), vec!["p", "q"]);
}

#[test]
fn scalar_iter_walks_rows_in_order() {
    let column = text_column(&["a", "b"]);
    let mut first = column.scalar_iter();
    let mut second = column.scalar_iter();
    assert_eq!(first.next().map(|s| s.as_str()), Some("a"));
    assert_eq!(first.next().map(|s| s.as_str()), Some("b"));
    assert_eq!(first.next(), None);
    assert_eq!(first.next(), None);
    assert_eq!(second.next().map(|s| s.as_str()), Some("a"));
}

#[test]
fn builder_freezes_and_empties() {
    let mut builder: MutableObjectColumn<String> = MutableObjectColumn::with_capacity(1);
    builder.append_value("one".to_string());
    builder.append_value("two".to_string());
    assert_eq!(builder.len(), 2);
    let column = builder.to_column();
    assert_eq!(texts(&column), vec!["one", "two"]);
    assert_eq!(builder.len(), 0);
}

#[test]
fn value_type_defaults_and_text() {
    assert_eq!(String::default_value(), "");
    assert!(<Value as ObjectType>::default_value().is_null());
    assert_eq!(<Value as ObjectType>::from_text("[1]").unwrap().to_string(), "[1]");
    assert!(<Value as ObjectType>::from_text("[1").is_err());
    assert_eq!(Value::from("a").to_text(), "\"a\"");
    assert_eq!(String::from_text("abc").unwrap(), "abc");
}
