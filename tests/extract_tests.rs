use delta_schema::actions::schemas::{log_schema, protocol_field};
use delta_schema::actions::{Metadata, Protocol};
use delta_schema::columnar::{Column, ColumnData, NativeType, SimpleData};
use delta_schema::engine_data::{list_get, list_len, list_materialize, map_get, map_materialize};
use delta_schema::error::Error;
use delta_schema::extract::{extract_column, extract_columns_from_array, get_error_for_types, Accessor};
use delta_schema::schema::{DataType, PrimitiveType, StructField, StructType};

const MD_ID: &str = "aff5cb91-8cd9-4195-aef9-446908507302";

fn col(name: &str, data: ColumnData) -> Column {
    Column { name: name.to_string(), data }
}

fn s(v: &str) -> Option<String> {
    Some(v.to_string())
}

/// One log record holding only a `metaData` action, as a JSON reader with the log schema
/// would read it.
fn metadata_batch(id: &str) -> SimpleData {
    let format = ColumnData::Struct(vec![
        col("provider", ColumnData::Utf8(vec![s("parquet")])),
        col("options", ColumnData::KeyValue(vec![Some(vec![])])),
    ]);
    let md = ColumnData::Struct(vec![
        col("id", ColumnData::Utf8(vec![s(id)])),
        col("name", ColumnData::Utf8(vec![None])),
        col("description", ColumnData::Utf8(vec![None])),
        col("format", format),
        col("schemaString", ColumnData::Utf8(vec![s("{\"type\":\"struct\",\"fields\":[]}")])),
        col("partitionColumns", ColumnData::List(vec![Some(vec![s("c1"), s("c2")])])),
        col("createdTime", ColumnData::Int64(vec![Some(1670892997849)])),
        col("configuration", ColumnData::KeyValue(vec![Some(vec![])])),
    ]);
    SimpleData::new(vec![col("metaData", md)], 1)
}

#[test]
fn test_md_extract() {
    let data = metadata_batch(MD_ID);
    let metadata = Metadata::try_new_from_data(&data).unwrap().unwrap();
    assert_eq!(metadata.id, "aff5cb91-8cd9-4195-aef9-446908507302");
    assert_eq!(metadata.created_time, Some(1670892997849));
    assert_eq!(metadata.partition_columns, vec!("c1", "c2"));
}

#[test]
fn test_nullable_struct() {
    let schema = log_schema().project(&["metaData"]).unwrap();
    assert_eq!(schema.fields.len(), 1);
    let data = metadata_batch(MD_ID);
    let protocol = Protocol::try_new_from_data(&data).unwrap();
    assert!(protocol.is_none());
}

#[test]
fn metadata_scenario_with_short_id() {
    let data = metadata_batch("X");
    let m = Metadata::try_new_from_data(&data).unwrap().unwrap();
    assert_eq!(m.id, "X");
    assert_eq!(m.format_provider, "parquet");
    assert_eq!(m.created_time, Some(1670892997849));
    assert_eq!(m.partition_columns, vec!["c1".to_string(), "c2".to_string()]);
    assert_eq!(m.name, None);
}

#[test]
fn absent_optional_struct_reports_all_null() {
    let data = metadata_batch("X");
    let schema = StructType::new(vec![protocol_field()]);
    let mut out: Vec<Accessor> = Vec::new();
    data.extract_columns(&mut out, &schema).unwrap();
    assert_eq!(out.len(), 4);
    assert!(out.iter().all(|a| matches!(a, Accessor::Null)));
}

#[test]
fn full_log_schema_extraction_shapes() {
    let data = metadata_batch("X");
    let mut out: Vec<Accessor> = Vec::new();
    data.extract_columns(&mut out, &log_schema()).unwrap();
    // add 15, cdc 5, commitInfo 8, domainMetadata 3, metaData 9, protocol 4, remove 15, txn 3
    assert_eq!(out.len(), 62);
    let md_start = 15 + 5 + 8 + 3;
    assert!(matches!(out[md_start], Accessor::Utf8(_)));
    assert!(matches!(out[md_start + 6], Accessor::List(_)));
    assert!(matches!(out[md_start + 7], Accessor::Int64(_)));
    assert!(matches!(out[0], Accessor::Null));
}

#[test]
fn required_field_absent_is_missing_data() {
    let data = SimpleData::new(vec![col("other", ColumnData::Utf8(vec![s("v")]))], 1);
    let schema = StructType::new(vec![StructField::new(
        "required",
        DataType::Primitive(PrimitiveType::String),
        false,
    )]);
    let mut out: Vec<Accessor> = Vec::new();
    match data.extract_columns(&mut out, &schema) {
        Err(Error::MissingRequiredData(f)) => assert_eq!(f, "required"),
        other => panic!("unexpected {:?}", other),
    }
}

#[test]
fn required_field_of_null_type_is_missing_data() {
    let data = SimpleData::new(vec![col("id", ColumnData::Null(1))], 1);
    let schema = StructType::new(vec![StructField::new(
        "id",
        DataType::Primitive(PrimitiveType::String),
        false,
    )]);
    let mut out: Vec<Accessor> = Vec::new();
    assert!(matches!(
        data.extract_columns(&mut out, &schema),
        Err(Error::MissingRequiredData(_))
    ));
}

#[test]
fn nullable_field_of_null_type_is_null() {
    let data = SimpleData::new(vec![col("id", ColumnData::Null(1))], 1);
    let schema = StructType::new(vec![StructField::new(
        "id",
        DataType::Primitive(PrimitiveType::String),
        true,
    )]);
    let mut out: Vec<Accessor> = Vec::new();
    data.extract_columns(&mut out, &schema).unwrap();
    assert_eq!(out.len(), 1);
    assert!(matches!(out[0], Accessor::Null));
}

#[test]
fn integer_from_string_column_is_mismatch() {
    let data = SimpleData::new(vec![col("n", ColumnData::Utf8(vec![s("1")]))], 1);
    let schema = StructType::new(vec![StructField::new(
        "n",
        DataType::Primitive(PrimitiveType::Integer),
        false,
    )]);
    let mut out: Vec<Accessor> = Vec::new();
    match data.extract_columns(&mut out, &schema) {
        Err(Error::TypeMismatch { field, declared, native }) => {
            assert_eq!(field, "n");
            assert!(matches!(declared, DataType::Primitive(PrimitiveType::Integer)));
            assert_eq!(native, NativeType::Utf8);
        }
        other => panic!("unexpected {:?}", other),
    }
}

#[test]
fn decimal_without_native_type_is_unsupported() {
    let declared = DataType::Primitive(PrimitiveType::Decimal(50, 2));
    let e = get_error_for_types(&declared, NativeType::Utf8, &"d".to_string());
    assert!(matches!(e, Error::UnsupportedType { .. }));
    assert_eq!(declared.to_native(), None);
    assert_eq!(
        DataType::Primitive(PrimitiveType::Decimal(10, 2)).to_native(),
        Some(NativeType::Decimal128(10, 2))
    );
}

#[test]
fn date_column_is_unextractable() {
    let data = SimpleData::new(vec![col("d", ColumnData::Other(NativeType::Date32, 1))], 1);
    let schema = StructType::new(vec![StructField::new(
        "d",
        DataType::Primitive(PrimitiveType::Date),
        false,
    )]);
    let mut out: Vec<Accessor> = Vec::new();
    assert!(matches!(
        data.extract_columns(&mut out, &schema),
        Err(Error::UnextractableType { .. })
    ));
}

#[test]
fn struct_declared_over_string_column_is_mismatch() {
    let data = SimpleData::new(vec![col("metaData", ColumnData::Utf8(vec![s("x")]))], 1);
    let schema = log_schema().project(&["metaData"]).unwrap();
    let mut out: Vec<Accessor> = Vec::new();
    match data.extract_columns(&mut out, &schema) {
        Err(Error::TypeMismatch { native, .. }) => assert_eq!(native, NativeType::Utf8),
        other => panic!("unexpected {:?}", other),
    }
}

#[test]
fn getters_read_rows() {
    let ints = vec![Some(7), None];
    let a = Accessor::Int32(&ints);
    assert_eq!(a.get_int(0).unwrap(), Some(7));
    assert_eq!(a.get_int(1).unwrap(), None);
    assert!(matches!(a.get_long(0), Err(Error::UnexpectedColumnType(_))));
    assert_eq!(Accessor::Null.get_str(5).unwrap(), None);
    let bools = vec![Some(true)];
    assert_eq!(Accessor::Boolean(&bools).get_bool(0).unwrap(), Some(true));
    let longs = vec![Some(-3i64)];
    assert_eq!(Accessor::Int64(&longs).get_long(0).unwrap(), Some(-3));
    let strs = vec![s("a")];
    assert_eq!(Accessor::Utf8(&strs).get_str(0).unwrap(), Some(&"a".to_string()));
}

#[test]
fn lazy_list_and_map_access() {
    let list = vec![s("c1"), None, s("c2")];
    assert_eq!(list_len(&list), 3);
    assert_eq!(list_get(&list, 2), s("c2"));
    assert_eq!(list_get(&list, 1), None);
    assert_eq!(list_materialize(&list), vec![s("c1"), None, s("c2")]);
    assert_eq!(list_materialize(&list).len(), list_len(&list));
    let lists = vec![Some(list.clone())];
    assert_eq!(Accessor::List(&lists).get_list(0).unwrap().map(|l| l.len()), Some(3));
    let entries = vec![("k".to_string(), s("v")), ("n".to_string(), None), ("k".to_string(), s("w"))];
    assert_eq!(map_get(&entries, "k"), Some(&s("v")));
    assert_eq!(map_get(&entries, "n"), Some(&None));
    assert_eq!(map_get(&entries, "z"), None);
    let maps = vec![Some(entries.clone()), None];
    assert!(Accessor::KeyValue(&maps).get_map(1).unwrap().is_none());
}

#[test]
fn batch_length_and_lookup() {
    let data = metadata_batch("X");
    assert_eq!(data.length(), 1);
    assert!(delta_schema::columnar::column_by_name(&data.columns, &"metaData".to_string()).is_some());
    assert!(delta_schema::columnar::column_by_name(&data.columns, &"protocol".to_string()).is_none());
}

#[test]
fn protocol_read_from_batch() {
    let proto = ColumnData::Struct(vec![
        col("minReaderVersion", ColumnData::Int32(vec![None, Some(3)])),
        col("minWriterVersion", ColumnData::Int32(vec![None, Some(7)])),
        col("readerFeatures", ColumnData::List(vec![None, Some(vec![s("deletionVectors")])])),
        col("writerFeatures", ColumnData::List(vec![None, None])),
    ]);
    let data = SimpleData::new(vec![col("protocol", proto)], 2);
    let p = Protocol::try_new_from_data(&data).unwrap().unwrap();
    assert_eq!(p.min_reader_version, 3);
    assert_eq!(p.min_writer_version, 7);
    assert_eq!(p.reader_features, Some(vec!["deletionVectors".to_string()]));
    assert_eq!(p.writer_features, None);
}

#[test]
fn mismatch_leaves_output_unchanged() {
    let strs = ColumnData::Utf8(vec![s("1")]);
    let field = StructField::new("f", DataType::Primitive(PrimitiveType::Integer), true);
    let keep = vec![Some(1i64)];
    let mut out: Vec<Accessor> = vec![Accessor::Int64(&keep)];
    match extract_column(&mut out, &field, &strs) {
        Err(Error::TypeMismatch { field, native, .. }) => {
            assert_eq!(field, "f");
            assert_eq!(native, NativeType::Utf8);
        }
        other => panic!("unexpected {:?}", other),
    }
    assert_eq!(out.len(), 1);
}

#[test]
fn failed_extraction_restores_output() {
    let cols = vec![
        col("a", ColumnData::Int64(vec![Some(1)])),
        col("b", ColumnData::Utf8(vec![s("x")])),
    ];
    let schema = StructType::new(vec![
        StructField::new("a", DataType::Primitive(PrimitiveType::Long), false),
        StructField::new("b", DataType::Primitive(PrimitiveType::Long), false),
    ]);
    let mut out: Vec<Accessor> = vec![Accessor::Null];
    assert!(extract_columns_from_array(&mut out, &schema, Some(&cols)).is_err());
    assert_eq!(out.len(), 1);
}

#[test]
fn absent_container_gives_null_leaves() {
    let schema = StructType::new(vec![protocol_field()]);
    let mut out: Vec<Accessor> = Vec::new();
    extract_columns_from_array(&mut out, &schema, None).unwrap();
    assert_eq!(out.len(), 4);
    assert!(out.iter().all(|a| matches!(a, Accessor::Null)));
}

#[test]
fn map_materialize_keeps_last_value_per_key() {
    let entries = vec![
        ("k".to_string(), s("v")),
        ("n".to_string(), None),
        ("k".to_string(), s("w")),
    ];
    let m = map_materialize(&entries);
    assert_eq!(m.len(), 2);
    assert_eq!(map_get(&m, "k"), Some(&s("w")));
    assert_eq!(map_get(&m, "n"), Some(&None));
    assert_eq!(map_get(&m, "z"), None);
}
