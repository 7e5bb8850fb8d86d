//! Schemas derived from a description of a record type's fields: each field's wire name comes
//! from its identifier by the naming rule, and its type and nullability from the shape of
//! its declared type.
use vstd::prelude::*;

use crate::naming::{get_schema_name, wire_name};
use crate::schema::{field_views, ArrayType, DataType, Field, MapType, StructField, StructType, Ty};

verus! {

/// The shape of a record field's declared type.
#[derive(Debug)]
pub enum TypeShape {
    /// A type that names a schema type directly.
    Named(DataType),
    /// An optional wrapper: the field may be null.
    Optional(Box<TypeShape>),
    /// A sequence: an array of the element type.
    Sequence(Box<TypeShape>),
    /// A map from the key type to the value type.
    Mapping(Box<TypeShape>, Box<TypeShape>),
    /// A record type of its own, given by its fields.
    Record(Vec<RecordField>),
}

/// A named field of a record type.
#[derive(Debug)]
pub struct RecordField {
    pub ident: String,
    pub shape: TypeShape,
}

/// Whether a field of shape `s` may be null: only an optional wrapper may.
pub open spec fn shape_nullable(s: TypeShape) -> bool {
    s is Optional
}

/// The schema type of shape `s`.
pub open spec fn shape_ty(s: TypeShape) -> Ty
    decreases s, 0int,
{
    match s {
        TypeShape::Named(d) => d@,
        TypeShape::Optional(inner) => shape_ty(*inner),
        TypeShape::Sequence(e) => Ty::Array(Box::new(shape_ty(*e)), shape_nullable(*e)),
        TypeShape::Mapping(k, v) => Ty::Mapping(
            Box::new(shape_ty(*k)),
            Box::new(shape_ty(*v)),
            shape_nullable(*v),
        ),
        TypeShape::Record(fs) => Ty::Struct(record_fields(fs, fs.len() as int)),
    }
}

/// The schema fields of the first `n` fields of a record.
pub open spec fn record_fields(fs: Vec<RecordField>, n: int) -> Seq<Field>
    decreases fs, n,
{
    if n <= 0 || n > fs.len() {
        Seq::empty()
    } else {
        let f = fs[n - 1];
        record_fields(fs, n - 1).push(
            Field {
                name: wire_name(f.ident@),
                ty: shape_ty(f.shape),
                nullable: shape_nullable(f.shape),
            },
        )
    }
}

/// The schema type of a field of shape `shape`.
pub fn to_data_type(shape: &TypeShape) -> (r: DataType)
    ensures
        r@ == shape_ty(*shape),
    decreases shape, 0int,
{
    match shape {
        TypeShape::Named(d) => d.clone(),
        TypeShape::Optional(inner) => to_data_type(inner),
        TypeShape::Sequence(e) => ArrayType::new(to_data_type(e), is_optional(e)),
        TypeShape::Mapping(k, v) => MapType::new(to_data_type(k), to_data_type(v), is_optional(v)),
        TypeShape::Record(fs) => {
            let fields = gen_schema_fields(fs);
            let st = StructType::new(fields);
            DataType::Struct(Box::new(st))
        },
    }
}

fn is_optional(shape: &TypeShape) -> (r: bool)
    ensures
        r == shape_nullable(*shape),
{
    match shape {
        TypeShape::Optional(_) => true,
        _ => false,
    }
}

/// The schema field named `name` for a field of shape `shape`; it is nullable exactly when
/// the shape is an optional wrapper.
pub fn get_field(shape: &TypeShape, name: &str) -> (r: StructField)
    ensures
        r@ == (Field { name: name@, ty: shape_ty(*shape), nullable: shape_nullable(*shape) }),
{
    StructField::new(name, to_data_type(shape), is_optional(shape))
}

/// The schema fields of a record's fields, in order, each named by the wire name of its
/// identifier.
pub fn gen_schema_fields(fields: &Vec<RecordField>) -> (r: Vec<StructField>)
    ensures
        field_views(r@) == record_fields(*fields, fields@.len() as int),
    decreases fields, 1int,
{
    let mut out: Vec<StructField> = Vec::new();
    let mut i: usize = 0;
    proof {
        assert(field_views(out@) =~= Seq::<Field>::empty());
    }
    while i < fields.len()
        invariant
            i <= fields@.len(),
            out@.len() == i,
            field_views(out@) == record_fields(*fields, i as int),
        decreases fields@.len() - i,
    {
        let f = &fields[i];
        let name = get_schema_name(f.ident.as_str());
        let data_type = to_data_type(&f.shape);
        let nullable = is_optional(&f.shape);
        let ghost before = out@;
        out.push(StructField { name, data_type, nullable });
        proof {
            assert(field_views(out@) =~= field_views(before).push(out@[i as int]@));
        }
        i = i + 1;
    }
    out
}

/// The schema field of a record type named `name` whose fields are `fields`; a record is
/// never null by itself.
pub fn derive_schema(name: &str, fields: &Vec<RecordField>) -> (r: StructField)
    ensures
        r@ == (Field {
            name: name@,
            ty: Ty::Struct(record_fields(*fields, fields@.len() as int)),
            nullable: false,
        }),
{
    let st = StructType::new(gen_schema_fields(fields));
    StructField::new(name, DataType::Struct(Box::new(st)), false)
}

} // verus!
