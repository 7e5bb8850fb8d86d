use delta_schema::actions::schemas::{
    add_field, deletion_vector_field, log_schema, metadata_field, partition_values_field,
    protocol_field, tags_field,
};
use delta_schema::error::Error;
use delta_schema::naming::get_schema_name;
use delta_schema::reflect::{derive_schema, get_field, gen_schema_fields, RecordField, TypeShape};
use delta_schema::schema::{DataType, MapType, PrimitiveType, StructField, StructType};

fn names(s: &StructType) -> Vec<String> {
    s.fields.iter().map(|f| f.name.clone()).collect()
}

fn string() -> DataType {
    DataType::Primitive(PrimitiveType::String)
}

#[test]
fn wire_name_of_snake_case() {
    assert_eq!(get_schema_name("schema_string"), "schemaString");
    assert_eq!(get_schema_name("min_reader_version"), "minReaderVersion");
    assert_eq!(get_schema_name("partition_columns"), "partitionColumns");
}

#[test]
fn wire_name_of_plain_identifier() {
    assert_eq!(get_schema_name("id"), "id");
    assert_eq!(get_schema_name(""), "");
}

#[test]
fn wire_name_edge_cases() {
    assert_eq!(get_schema_name("a__b"), "aB");
    assert_eq!(get_schema_name("trailing_"), "trailing");
    assert_eq!(get_schema_name("x_1"), "x1");
    assert_eq!(get_schema_name(&get_schema_name("schema_string")), "schemaString");
}

#[test]
fn log_schema_field_order() {
    let s = log_schema();
    assert_eq!(
        names(&s),
        vec!["add", "cdc", "commitInfo", "domainMetadata", "metaData", "protocol", "remove", "txn"]
    );
    assert!(s.fields.iter().all(|f| f.nullable));
}

#[test]
fn project_metadata_from_log_schema() {
    let s = log_schema();
    let p = s.project(&["metaData"]).unwrap();
    assert_eq!(names(&p), vec!["metaData"]);
    match &p.fields[0].data_type {
        DataType::Struct(inner) => {
            assert_eq!(
                names(inner),
                vec![
                    "id",
                    "name",
                    "description",
                    "format",
                    "schemaString",
                    "partitionColumns",
                    "createdTime",
                    "configuration"
                ]
            );
        }
        _ => panic!("metaData is not a struct"),
    }
}

#[test]
fn project_keeps_requested_order() {
    let s = log_schema();
    let p = s.project(&["txn", "add"]).unwrap();
    assert_eq!(names(&p), vec!["txn", "add"]);
}

#[test]
fn project_absent_name_fails() {
    let s = log_schema();
    match s.project(&["metaData", "nope"]) {
        Err(Error::MissingField(n)) => assert_eq!(n, "nope"),
        other => panic!("unexpected {:?}", other),
    }
}

#[test]
fn try_new_refuses_duplicate_names() {
    let fields = vec![
        StructField::new("a", string(), true),
        StructField::new("b", string(), true),
        StructField::new("a", string(), false),
    ];
    match StructType::try_new(fields) {
        Err(Error::DuplicateField(n)) => assert_eq!(n, "a"),
        other => panic!("unexpected {:?}", other),
    }
    let ok = StructType::try_new(vec![StructField::new("a", string(), true)]).unwrap();
    assert_eq!(names(&ok), vec!["a"]);
}

#[test]
fn shared_helper_fields() {
    let t = tags_field();
    assert_eq!(t.name, "tags");
    assert!(t.nullable);
    assert!(matches!(&t.data_type, DataType::Mapping(m) if m.value_contains_null));
    let p = partition_values_field();
    assert_eq!(p.name, "partitionValues");
    assert!(!p.nullable);
    let d = deletion_vector_field();
    assert_eq!(d.name, "deletionVector");
    assert!(d.nullable);
    match &d.data_type {
        DataType::Struct(s) => assert_eq!(
            names(s),
            vec!["storageType", "pathOrInlineDv", "offset", "sizeInBytes", "cardinality"]
        ),
        _ => panic!("deletionVector is not a struct"),
    }
}

#[test]
fn add_and_protocol_fields() {
    let a = add_field();
    match &a.data_type {
        DataType::Struct(s) => {
            assert_eq!(s.fields.len(), 11);
            assert_eq!(s.fields[1].name, "partitionValues");
            assert_eq!(s.fields[7].name, "deletionVector");
        }
        _ => panic!(),
    }
    let p = protocol_field();
    match &p.data_type {
        DataType::Struct(s) => assert_eq!(
            names(s),
            vec!["minReaderVersion", "minWriterVersion", "readerFeatures", "writerFeatures"]
        ),
        _ => panic!(),
    }
    assert_eq!(metadata_field().name, "metaData");
}

#[test]
fn field_by_name() {
    let s = log_schema();
    assert_eq!(s.index_of("protocol"), Some(5));
    assert_eq!(s.index_of("missing"), None);
    assert!(s.field("remove").is_some());
}

#[test]
fn derive_schema_of_record() {
    let fields = vec![
        RecordField { ident: "schema_string".to_string(), shape: TypeShape::Named(string()) },
        RecordField {
            ident: "created_time".to_string(),
            shape: TypeShape::Optional(Box::new(TypeShape::Named(DataType::Primitive(
                PrimitiveType::Long,
            )))),
        },
        RecordField {
            ident: "partition_columns".to_string(),
            shape: TypeShape::Sequence(Box::new(TypeShape::Named(string()))),
        },
        RecordField {
            ident: "configuration".to_string(),
            shape: TypeShape::Mapping(
                Box::new(TypeShape::Named(string())),
                Box::new(TypeShape::Optional(Box::new(TypeShape::Named(string())))),
            ),
        },
    ];
    let f = derive_schema("metaData", &fields);
    assert_eq!(f.name, "metaData");
    assert!(!f.nullable);
    match &f.data_type {
        DataType::Struct(s) => {
            assert_eq!(names(s), vec!["schemaString", "createdTime", "partitionColumns", "configuration"]);
            assert!(!s.fields[0].nullable);
            assert!(s.fields[1].nullable);
            assert!(matches!(s.fields[1].data_type, DataType::Primitive(PrimitiveType::Long)));
            assert!(matches!(&s.fields[2].data_type, DataType::Array(a) if !a.contains_null));
            assert!(matches!(&s.fields[3].data_type, DataType::Mapping(m) if m.value_contains_null));
        }
        _ => panic!(),
    }
    let g = gen_schema_fields(&fields);
    assert_eq!(g.len(), 4);
    let o = get_field(&TypeShape::Optional(Box::new(TypeShape::Named(string()))), "x");
    assert!(o.nullable);
    let m = MapType::new(string(), string(), false);
    assert!(matches!(m, DataType::Mapping(_)));
}
