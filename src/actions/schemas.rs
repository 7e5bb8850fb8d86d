//! The schema of each kind of log action, and of the log as a whole.
use vstd::prelude::*;

use crate::schema::{index_of, index_of_from, project_spec, ArrayType, DataType, Field, MapType, PrimitiveType, StructField, StructType, Ty};

verus! {

/// A string-to-string map type whose values may be null.
pub open spec fn string_map_ty(value_nullable: bool) -> Ty {
    Ty::Mapping(
        Box::new(Ty::Prim(PrimitiveType::String)),
        Box::new(Ty::Prim(PrimitiveType::String)),
        value_nullable,
    )
}

fn prim(p: PrimitiveType) -> (r: DataType)
    ensures
        r@ == Ty::Prim(p),
{
    DataType::Primitive(p)
}

fn string_map(value_nullable: bool) -> (r: DataType)
    ensures
        r@ == string_map_ty(value_nullable),
{
    MapType::new(prim(PrimitiveType::String), prim(PrimitiveType::String), value_nullable)
}

pub open spec fn tags_field_spec() -> Field {
    Field { name: "tags"@, ty: string_map_ty(true), nullable: true }
}

/// The optional `tags` map shared by several actions.
pub fn tags_field() -> (r: StructField)
    ensures
        r@ == tags_field_spec(),
{
    StructField::new("tags", string_map(true), true)
}

pub open spec fn partition_values_field_spec() -> Field {
    Field { name: "partitionValues"@, ty: string_map_ty(true), nullable: false }
}

/// The required `partitionValues` map shared by several actions.
pub fn partition_values_field() -> (r: StructField)
    ensures
        r@ == partition_values_field_spec(),
{
    StructField::new("partitionValues", string_map(true), false)
}

pub open spec fn deletion_vector_field_spec() -> Field {
    Field {
        name: "deletionVector"@,
        ty: Ty::Struct(
            seq![
                Field { name: "storageType"@, ty: Ty::Prim(PrimitiveType::String), nullable: false },
                Field { name: "pathOrInlineDv"@, ty: Ty::Prim(PrimitiveType::String), nullable: false },
                Field { name: "offset"@, ty: Ty::Prim(PrimitiveType::Integer), nullable: true },
                Field { name: "sizeInBytes"@, ty: Ty::Prim(PrimitiveType::Integer), nullable: false },
                Field { name: "cardinality"@, ty: Ty::Prim(PrimitiveType::Long), nullable: false }
            ],
        ),
        nullable: true,
    }
}

/// The optional `deletionVector` descriptor shared by `add` and `remove`.
pub fn deletion_vector_field() -> (r: StructField)
    ensures
        r@ == deletion_vector_field_spec(),
{
    let fields = vec![
        StructField::new("storageType", prim(PrimitiveType::String), false),
        StructField::new("pathOrInlineDv", prim(PrimitiveType::String), false),
        StructField::new("offset", prim(PrimitiveType::Integer), true),
        StructField::new("sizeInBytes", prim(PrimitiveType::Integer), false),
        StructField::new("cardinality", prim(PrimitiveType::Long), false),
    ];
    let st = StructType::new(fields);
    proof {
        assert(st@ =~= deletion_vector_field_spec().ty->Struct_0);
    }
    StructField::new("deletionVector", DataType::Struct(Box::new(st)), true)
}

pub open spec fn format_struct_spec() -> Seq<Field> {
    seq![
        Field { name: "provider"@, ty: Ty::Prim(PrimitiveType::String), nullable: false },
        Field { name: "options"@, ty: string_map_ty(true), nullable: true }
    ]
}

fn format_struct() -> (r: StructType)
    ensures
        r@ == format_struct_spec(),
{
    let st = StructType::new(vec![
        StructField::new("provider", prim(PrimitiveType::String), false),
        StructField::new("options", string_map(true), true),
    ]);
    proof {
        assert(st@ =~= format_struct_spec());
    }
    st
}

/// The model of the `metaData` action field.
pub open spec fn metadata_field_spec() -> Field {
    Field {
        name: "metaData"@,
        ty: Ty::Struct(
            seq![
                Field { name: "id"@, ty: Ty::Prim(PrimitiveType::String), nullable: false },
                Field { name: "name"@, ty: Ty::Prim(PrimitiveType::String), nullable: true },
                Field { name: "description"@, ty: Ty::Prim(PrimitiveType::String), nullable: true },
                Field { name: "format"@, ty: Ty::Struct(format_struct_spec()), nullable: false },
                Field { name: "schemaString"@, ty: Ty::Prim(PrimitiveType::String), nullable: false },
                Field { name: "partitionColumns"@, ty: Ty::Array(Box::new(Ty::Prim(PrimitiveType::String)), false), nullable: false },
                Field { name: "createdTime"@, ty: Ty::Prim(PrimitiveType::Long), nullable: true },
                Field { name: "configuration"@, ty: string_map_ty(true), nullable: false }
            ],
        ),
        nullable: true,
    }
}

/// The `metaData` action: the table's id, format, schema and configuration.
pub fn metadata_field() -> (r: StructField)
    ensures
        r@ == metadata_field_spec(),
{
    let fields = vec![
        StructField::new("id", prim(PrimitiveType::String), false),
        StructField::new("name", prim(PrimitiveType::String), true),
        StructField::new("description", prim(PrimitiveType::String), true),
        StructField::new("format", DataType::Struct(Box::new(format_struct())), false),
        StructField::new("schemaString", prim(PrimitiveType::String), false),
        StructField::new("partitionColumns", ArrayType::new(prim(PrimitiveType::String), false), false),
        StructField::new("createdTime", prim(PrimitiveType::Long), true),
        StructField::new("configuration", string_map(true), false)
    ];
    let st = StructType::new(fields);
    proof {
        assert(st@ =~= metadata_field_spec().ty->Struct_0);
    }
    StructField::new("metaData", DataType::Struct(Box::new(st)), true)
}

/// The model of the `protocol` action field.
pub open spec fn protocol_field_spec() -> Field {
    Field {
        name: "protocol"@,
        ty: Ty::Struct(
            seq![
                Field { name: "minReaderVersion"@, ty: Ty::Prim(PrimitiveType::Integer), nullable: false },
                Field { name: "minWriterVersion"@, ty: Ty::Prim(PrimitiveType::Integer), nullable: false },
                Field { name: "readerFeatures"@, ty: Ty::Array(Box::new(Ty::Prim(PrimitiveType::String)), false), nullable: true },
                Field { name: "writerFeatures"@, ty: Ty::Array(Box::new(Ty::Prim(PrimitiveType::String)), false), nullable: true }
            ],
        ),
        nullable: true,
    }
}

/// The `protocol` action: the reader and writer versions and features a table needs.
pub fn protocol_field() -> (r: StructField)
    ensures
        r@ == protocol_field_spec(),
{
    let fields = vec![
        StructField::new("minReaderVersion", prim(PrimitiveType::Integer), false),
        StructField::new("minWriterVersion", prim(PrimitiveType::Integer), false),
        StructField::new("readerFeatures", ArrayType::new(prim(PrimitiveType::String), false), true),
        StructField::new("writerFeatures", ArrayType::new(prim(PrimitiveType::String), false), true)
    ];
    let st = StructType::new(fields);
    proof {
        assert(st@ =~= protocol_field_spec().ty->Struct_0);
    }
    StructField::new("protocol", DataType::Struct(Box::new(st)), true)
}

/// The model of the `commitInfo` action field.
pub open spec fn commit_info_field_spec() -> Field {
    Field {
        name: "commitInfo"@,
        ty: Ty::Struct(
            seq![
                Field { name: "timestamp"@, ty: Ty::Prim(PrimitiveType::Long), nullable: false },
                Field { name: "operation"@, ty: Ty::Prim(PrimitiveType::String), nullable: false },
                Field { name: "isolationLevel"@, ty: Ty::Prim(PrimitiveType::String), nullable: true },
                Field { name: "isBlindAppend"@, ty: Ty::Prim(PrimitiveType::Boolean), nullable: true },
                Field { name: "txnId"@, ty: Ty::Prim(PrimitiveType::String), nullable: true },
                Field { name: "readVersion"@, ty: Ty::Prim(PrimitiveType::Long), nullable: true },
                Field { name: "operationParameters"@, ty: string_map_ty(true), nullable: true },
                Field { name: "operationMetrics"@, ty: string_map_ty(true), nullable: true }
            ],
        ),
        nullable: true,
    }
}

/// The `commitInfo` action: provenance of a commit.
pub fn commit_info_field() -> (r: StructField)
    ensures
        r@ == commit_info_field_spec(),
{
    let fields = vec![
        StructField::new("timestamp", prim(PrimitiveType::Long), false),
        StructField::new("operation", prim(PrimitiveType::String), false),
        StructField::new("isolationLevel", prim(PrimitiveType::String), true),
        StructField::new("isBlindAppend", prim(PrimitiveType::Boolean), true),
        StructField::new("txnId", prim(PrimitiveType::String), true),
        StructField::new("readVersion", prim(PrimitiveType::Long), true),
        StructField::new("operationParameters", string_map(true), true),
        StructField::new("operationMetrics", string_map(true), true)
    ];
    let st = StructType::new(fields);
    proof {
        assert(st@ =~= commit_info_field_spec().ty->Struct_0);
    }
    StructField::new("commitInfo", DataType::Struct(Box::new(st)), true)
}

/// The model of the `add` action field.
pub open spec fn add_field_spec() -> Field {
    Field {
        name: "add"@,
        ty: Ty::Struct(
            seq![
                Field { name: "path"@, ty: Ty::Prim(PrimitiveType::String), nullable: false },
                partition_values_field_spec(),
                Field { name: "size"@, ty: Ty::Prim(PrimitiveType::Long), nullable: false },
                Field { name: "modificationTime"@, ty: Ty::Prim(PrimitiveType::Long), nullable: false },
                Field { name: "dataChange"@, ty: Ty::Prim(PrimitiveType::Boolean), nullable: false },
                Field { name: "stats"@, ty: Ty::Prim(PrimitiveType::String), nullable: true },
                tags_field_spec(),
                deletion_vector_field_spec(),
                Field { name: "baseRowId"@, ty: Ty::Prim(PrimitiveType::Long), nullable: true },
                Field { name: "defaultRowCommitVersion"@, ty: Ty::Prim(PrimitiveType::Long), nullable: true },
                Field { name: "clusteringProvider"@, ty: Ty::Prim(PrimitiveType::String), nullable: true }
            ],
        ),
        nullable: true,
    }
}

/// The `add` action: a data file that becomes part of the table.
pub fn add_field() -> (r: StructField)
    ensures
        r@ == add_field_spec(),
{
    let fields = vec![
        StructField::new("path", prim(PrimitiveType::String), false),
        partition_values_field(),
        StructField::new("size", prim(PrimitiveType::Long), false),
        StructField::new("modificationTime", prim(PrimitiveType::Long), false),
        StructField::new("dataChange", prim(PrimitiveType::Boolean), false),
        StructField::new("stats", prim(PrimitiveType::String), true),
        tags_field(),
        deletion_vector_field(),
        StructField::new("baseRowId", prim(PrimitiveType::Long), true),
        StructField::new("defaultRowCommitVersion", prim(PrimitiveType::Long), true),
        StructField::new("clusteringProvider", prim(PrimitiveType::String), true)
    ];
    let st = StructType::new(fields);
    proof {
        assert(st@ =~= add_field_spec().ty->Struct_0);
    }
    StructField::new("add", DataType::Struct(Box::new(st)), true)
}

/// The model of the `remove` action field.
pub open spec fn remove_field_spec() -> Field {
    Field {
        name: "remove"@,
        ty: Ty::Struct(
            seq![
                Field { name: "path"@, ty: Ty::Prim(PrimitiveType::String), nullable: false },
                Field { name: "deletionTimestamp"@, ty: Ty::Prim(PrimitiveType::Long), nullable: true },
                Field { name: "dataChange"@, ty: Ty::Prim(PrimitiveType::Boolean), nullable: false },
                Field { name: "extendedFileMetadata"@, ty: Ty::Prim(PrimitiveType::Boolean), nullable: true },
                partition_values_field_spec(),
                Field { name: "size"@, ty: Ty::Prim(PrimitiveType::Long), nullable: true },
                Field { name: "stats"@, ty: Ty::Prim(PrimitiveType::String), nullable: true },
                tags_field_spec(),
                deletion_vector_field_spec(),
                Field { name: "baseRowId"@, ty: Ty::Prim(PrimitiveType::Long), nullable: true },
                Field { name: "defaultRowCommitVersion"@, ty: Ty::Prim(PrimitiveType::Long), nullable: true }
            ],
        ),
        nullable: true,
    }
}

/// The `remove` action: a data file that leaves the table.
pub fn remove_field() -> (r: StructField)
    ensures
        r@ == remove_field_spec(),
{
    let fields = vec![
        StructField::new("path", prim(PrimitiveType::String), false),
        StructField::new("deletionTimestamp", prim(PrimitiveType::Long), true),
        StructField::new("dataChange", prim(PrimitiveType::Boolean), false),
        StructField::new("extendedFileMetadata", prim(PrimitiveType::Boolean), true),
        partition_values_field(),
        StructField::new("size", prim(PrimitiveType::Long), true),
        StructField::new("stats", prim(PrimitiveType::String), true),
        tags_field(),
        deletion_vector_field(),
        StructField::new("baseRowId", prim(PrimitiveType::Long), true),
        StructField::new("defaultRowCommitVersion", prim(PrimitiveType::Long), true)
    ];
    let st = StructType::new(fields);
    proof {
        assert(st@ =~= remove_field_spec().ty->Struct_0);
    }
    StructField::new("remove", DataType::Struct(Box::new(st)), true)
}

/// The model of the `remove` action field.
pub open spec fn remove_field_checkpoint_spec() -> Field {
    Field {
        name: "remove"@,
        ty: Ty::Struct(
            seq![
                Field { name: "path"@, ty: Ty::Prim(PrimitiveType::String), nullable: false },
                Field { name: "deletionTimestamp"@, ty: Ty::Prim(PrimitiveType::Long), nullable: true },
                Field { name: "dataChange"@, ty: Ty::Prim(PrimitiveType::Boolean), nullable: false }
            ],
        ),
        nullable: true,
    }
}

/// The `remove` action as a checkpoint holds it.
pub fn remove_field_checkpoint() -> (r: StructField)
    ensures
        r@ == remove_field_checkpoint_spec(),
{
    let fields = vec![
        StructField::new("path", prim(PrimitiveType::String), false),
        StructField::new("deletionTimestamp", prim(PrimitiveType::Long), true),
        StructField::new("dataChange", prim(PrimitiveType::Boolean), false)
    ];
    let st = StructType::new(fields);
    proof {
        assert(st@ =~= remove_field_checkpoint_spec().ty->Struct_0);
    }
    StructField::new("remove", DataType::Struct(Box::new(st)), true)
}

/// The model of the `cdc` action field.
pub open spec fn cdc_field_spec() -> Field {
    Field {
        name: "cdc"@,
        ty: Ty::Struct(
            seq![
                Field { name: "path"@, ty: Ty::Prim(PrimitiveType::String), nullable: false },
                partition_values_field_spec(),
                Field { name: "size"@, ty: Ty::Prim(PrimitiveType::Long), nullable: false },
                Field { name: "dataChange"@, ty: Ty::Prim(PrimitiveType::Boolean), nullable: false },
                tags_field_spec()
            ],
        ),
        nullable: true,
    }
}

/// The `cdc` action: a file of change data.
pub fn cdc_field() -> (r: StructField)
    ensures
        r@ == cdc_field_spec(),
{
    let fields = vec![
        StructField::new("path", prim(PrimitiveType::String), false),
        partition_values_field(),
        StructField::new("size", prim(PrimitiveType::Long), false),
        StructField::new("dataChange", prim(PrimitiveType::Boolean), false),
        tags_field()
    ];
    let st = StructType::new(fields);
    proof {
        assert(st@ =~= cdc_field_spec().ty->Struct_0);
    }
    StructField::new("cdc", DataType::Struct(Box::new(st)), true)
}

/// The model of the `txn` action field.
pub open spec fn txn_field_spec() -> Field {
    Field {
        name: "txn"@,
        ty: Ty::Struct(
            seq![
                Field { name: "appId"@, ty: Ty::Prim(PrimitiveType::String), nullable: false },
                Field { name: "version"@, ty: Ty::Prim(PrimitiveType::Long), nullable: false },
                Field { name: "lastUpdated"@, ty: Ty::Prim(PrimitiveType::Long), nullable: true }
            ],
        ),
        nullable: true,
    }
}

/// The `txn` action: an application's transaction version.
pub fn txn_field() -> (r: StructField)
    ensures
        r@ == txn_field_spec(),
{
    let fields = vec![
        StructField::new("appId", prim(PrimitiveType::String), false),
        StructField::new("version", prim(PrimitiveType::Long), false),
        StructField::new("lastUpdated", prim(PrimitiveType::Long), true)
    ];
    let st = StructType::new(fields);
    proof {
        assert(st@ =~= txn_field_spec().ty->Struct_0);
    }
    StructField::new("txn", DataType::Struct(Box::new(st)), true)
}

/// The model of the `domainMetadata` action field.
pub open spec fn domain_metadata_field_spec() -> Field {
    Field {
        name: "domainMetadata"@,
        ty: Ty::Struct(
            seq![
                Field { name: "domain"@, ty: Ty::Prim(PrimitiveType::String), nullable: false },
                Field { name: "configuration"@, ty: string_map_ty(true), nullable: false },
                Field { name: "removed"@, ty: Ty::Prim(PrimitiveType::Boolean), nullable: false }
            ],
        ),
        nullable: true,
    }
}

/// The `domainMetadata` action: configuration of a named domain.
pub fn domain_metadata_field() -> (r: StructField)
    ensures
        r@ == domain_metadata_field_spec(),
{
    let fields = vec![
        StructField::new("domain", prim(PrimitiveType::String), false),
        StructField::new("configuration", string_map(true), false),
        StructField::new("removed", prim(PrimitiveType::Boolean), false)
    ];
    let st = StructType::new(fields);
    proof {
        assert(st@ =~= domain_metadata_field_spec().ty->Struct_0);
    }
    StructField::new("domainMetadata", DataType::Struct(Box::new(st)), true)
}

/// The model of the `checkpointMetadata` action field.
pub open spec fn checkpoint_metadata_field_spec() -> Field {
    Field {
        name: "checkpointMetadata"@,
        ty: Ty::Struct(
            seq![
                Field { name: "flavor"@, ty: Ty::Prim(PrimitiveType::String), nullable: false },
                tags_field_spec()
            ],
        ),
        nullable: true,
    }
}

/// The `checkpointMetadata` action: how a checkpoint was written.
pub fn checkpoint_metadata_field() -> (r: StructField)
    ensures
        r@ == checkpoint_metadata_field_spec(),
{
    let fields = vec![
        StructField::new("flavor", prim(PrimitiveType::String), false),
        tags_field()
    ];
    let st = StructType::new(fields);
    proof {
        assert(st@ =~= checkpoint_metadata_field_spec().ty->Struct_0);
    }
    StructField::new("checkpointMetadata", DataType::Struct(Box::new(st)), true)
}

/// The model of the `sidecar` action field.
pub open spec fn sidecar_field_spec() -> Field {
    Field {
        name: "sidecar"@,
        ty: Ty::Struct(
            seq![
                Field { name: "path"@, ty: Ty::Prim(PrimitiveType::String), nullable: false },
                Field { name: "sizeInBytes"@, ty: Ty::Prim(PrimitiveType::Long), nullable: false },
                Field { name: "modificationTime"@, ty: Ty::Prim(PrimitiveType::Long), nullable: false },
                Field { name: "type"@, ty: Ty::Prim(PrimitiveType::String), nullable: false },
                tags_field_spec()
            ],
        ),
        nullable: true,
    }
}

/// The `sidecar` action: a file that holds part of a checkpoint.
pub fn sidecar_field() -> (r: StructField)
    ensures
        r@ == sidecar_field_spec(),
{
    let fields = vec![
        StructField::new("path", prim(PrimitiveType::String), false),
        StructField::new("sizeInBytes", prim(PrimitiveType::Long), false),
        StructField::new("modificationTime", prim(PrimitiveType::Long), false),
        StructField::new("type", prim(PrimitiveType::String), false),
        tags_field()
    ];
    let st = StructType::new(fields);
    proof {
        assert(st@ =~= sidecar_field_spec().ty->Struct_0);
    }
    StructField::new("sidecar", DataType::Struct(Box::new(st)), true)
}

/// The model of the log schema.
pub open spec fn log_schema_spec() -> Seq<Field> {
    seq![
        add_field_spec(),
        cdc_field_spec(),
        commit_info_field_spec(),
        domain_metadata_field_spec(),
        metadata_field_spec(),
        protocol_field_spec(),
        remove_field_spec(),
        txn_field_spec()
    ]
}

/// The schema of a log record of unknown kind: one optional struct field per kind of action.
pub fn log_schema() -> (r: StructType)
    ensures
        r@ == log_schema_spec(),
{
    let st = StructType::new(vec![
        add_field(),
        cdc_field(),
        commit_info_field(),
        domain_metadata_field(),
        metadata_field(),
        protocol_field(),
        remove_field(),
        txn_field(),
    ]);
    proof {
        assert(st@ =~= log_schema_spec());
    }
    st
}

/// Projecting the log schema onto `metaData` yields exactly the `metaData` field.
pub proof fn lemma_project_log_schema_metadata()
    ensures
        project_spec(log_schema_spec(), seq!["metaData"@]) == Some(seq![metadata_field_spec()]),
{
    let fs = log_schema_spec();
    let name = "metaData"@;
    reveal_strlit("metaData");
    reveal_strlit("add");
    reveal_strlit("cdc");
    reveal_strlit("commitInfo");
    reveal_strlit("domainMetadata");
    assert(fs[0].name == "add"@);
    assert("add"@.len() == 3);
    assert(fs[0].name.len() != name.len());
    assert(fs[1].name == "cdc"@);
    assert("cdc"@.len() == 3);
    assert(fs[1].name.len() != name.len());
    assert(fs[2].name != name);
    assert(fs[3].name.len() != name.len());
    assert(fs[4].name == name);
    reveal_with_fuel(index_of_from, 6);
    assert(index_of(fs, name) == 4);
    assert(seq![name].map_values(|n: Seq<char>| fs[index_of(fs, n)]) =~= seq![
        metadata_field_spec(),
    ]);
}

/// Projecting onto a list that holds a name without a field fails.
pub proof fn lemma_project_absent_name_fails(fields: Seq<Field>, names: Seq<Seq<char>>, i: int)
    requires
        0 <= i < names.len(),
        index_of(fields, names[i]) == -1,
    ensures
        project_spec(fields, names) is None,
{
}

} // verus!
