//! Extraction of typed column accessors from a batch, guided by a schema.
//!
//! The walk visits the schema's fields in order. A field is matched to the first column of
//! its name; a column of the null type counts as absent. A present column must agree with
//! the field's declared type, and a struct column is walked in turn. An absent column is
//! allowed where the field is nullable or where the enclosing struct is itself absent; it
//! then yields a null accessor, or, for a struct field, one null accessor per leaf beneath.
use vstd::prelude::*;

use crate::columnar::{column_by_name, lookup_column, Column, ColumnData, NativeType, SimpleData};
use crate::error::Error;
use crate::schema::{lemma_struct_view, DataType, PrimitiveType, StructType, Ty, Field};

verus! {

/// A typed accessor of one leaf column; `Null` answers null for every row.
#[derive(Debug)]
pub enum Accessor<'a> {
    Null,
    Boolean(&'a Vec<Option<bool>>),
    Int32(&'a Vec<Option<i32>>),
    Int64(&'a Vec<Option<i64>>),
    Utf8(&'a Vec<Option<String>>),
    List(&'a Vec<Option<Vec<Option<String>>>>),
    KeyValue(&'a Vec<Option<Vec<(String, Option<String>)>>>),
}

impl<'a> Accessor<'a> {
    /// The column read through this accessor; `None` for the null accessor.
    pub open spec fn view(self) -> Option<ColumnData> {
        match self {
            Accessor::Null => None,
            Accessor::Boolean(v) => Some(ColumnData::Boolean(*v)),
            Accessor::Int32(v) => Some(ColumnData::Int32(*v)),
            Accessor::Int64(v) => Some(ColumnData::Int64(*v)),
            Accessor::Utf8(v) => Some(ColumnData::Utf8(*v)),
            Accessor::List(v) => Some(ColumnData::List(*v)),
            Accessor::KeyValue(v) => Some(ColumnData::KeyValue(*v)),
        }
    }
}

pub open spec fn leaves<'a>(s: Seq<Accessor<'a>>) -> Seq<Option<ColumnData>> {
    s.map_values(|a: Accessor<'a>| a@)
}

/// Why an extraction fails.
pub enum ExtractError {
    /// A required field is absent.
    Missing(Seq<char>),
    /// Declared and native types both exist and differ.
    Mismatch(Seq<char>, Ty, NativeType),
    /// The declared type has no native representation.
    Unsupported(Seq<char>, Ty),
    /// Declared and native types agree, but no accessor reads that type.
    Unextractable(Seq<char>, Ty),
}

/// The error `e` is the failure `m`.
pub open spec fn error_is(e: Error, m: ExtractError) -> bool {
    match m {
        ExtractError::Missing(n) => e matches Error::MissingRequiredData(f) && f@ == n,
        ExtractError::Mismatch(n, t, nt) => e matches Error::TypeMismatch { field, declared, native }
            && field@ == n && declared@ == t && native == nt,
        ExtractError::Unsupported(n, t) => e matches Error::UnsupportedType { field, declared }
            && field@ == n && declared@ == t,
        ExtractError::Unextractable(n, t) => e matches Error::UnextractableType { field, declared }
            && field@ == n && declared@ == t,
    }
}

/// The native type of a primitive type, if it has one.
pub open spec fn primitive_native(p: PrimitiveType) -> Option<NativeType> {
    match p {
        PrimitiveType::String => Some(NativeType::Utf8),
        PrimitiveType::Long => Some(NativeType::Int64),
        PrimitiveType::Integer => Some(NativeType::Int32),
        PrimitiveType::Short => Some(NativeType::Int16),
        PrimitiveType::Byte => Some(NativeType::Int8),
        PrimitiveType::Float => Some(NativeType::Float32),
        PrimitiveType::Double => Some(NativeType::Float64),
        PrimitiveType::Boolean => Some(NativeType::Boolean),
        PrimitiveType::Binary => Some(NativeType::Binary),
        PrimitiveType::Date => Some(NativeType::Date32),
        PrimitiveType::Timestamp => Some(NativeType::TimestampMicros),
        PrimitiveType::Decimal(p, s) => if 1 <= p <= 38 && s <= p {
            Some(NativeType::Decimal128(p, s))
        } else {
            None
        },
    }
}

/// The native type of a declared type; `None` where it, or a type inside it, has none.
pub open spec fn native_of(t: Ty) -> Option<NativeType>
    decreases t, 1int,
{
    match t {
        Ty::Prim(p) => primitive_native(p),
        Ty::Array(e, _) => if native_of(*e) is Some {
            Some(NativeType::List)
        } else {
            None
        },
        Ty::Mapping(k, v, _) => if native_of(*k) is Some && native_of(*v) is Some {
            Some(NativeType::KeyValue)
        } else {
            None
        },
        Ty::Struct(fs) => if all_native(fs, fs.len() as int) {
            Some(NativeType::Struct)
        } else {
            None
        },
    }
}

/// Each of the first `n` fields has a native type.
pub open spec fn all_native(fs: Seq<Field>, n: int) -> bool
    decreases fs, n,
{
    if n <= 0 || n > fs.len() {
        true
    } else {
        all_native(fs, n - 1) && native_of(fs[n - 1].ty) is Some
    }
}

/// The failure for a field named `name`, declared `t`, whose column is of type `nt`.
pub open spec fn error_for_types(name: Seq<char>, t: Ty, nt: NativeType) -> ExtractError {
    match native_of(t) {
        Some(e) => if e == nt {
            ExtractError::Unextractable(name, t)
        } else {
            ExtractError::Mismatch(name, t, nt)
        },
        None => ExtractError::Unsupported(name, t),
    }
}

/// A leaf column `d` can be read as declared type `t`.
pub open spec fn leaf_accepts(d: ColumnData, t: Ty) -> bool {
    ||| d is Boolean && t == Ty::Prim(PrimitiveType::Boolean)
    ||| d is Utf8 && t == Ty::Prim(PrimitiveType::String)
    ||| d is Int32 && t == Ty::Prim(PrimitiveType::Integer)
    ||| d is Int64 && t == Ty::Prim(PrimitiveType::Long)
    ||| d is List && t is Array
    ||| d is KeyValue && t is Mapping
}

/// The leaves extracted for `fields` from the columns `cols` (`None`: the enclosing struct is
/// absent), in field order, or the first failure.
pub open spec fn extract_spec(fields: Seq<Field>, cols: Option<Seq<Column>>) -> Result<
    Seq<Option<ColumnData>>,
    ExtractError,
>
    decreases fields, 2int,
{
    if fields.len() == 0 {
        Ok(Seq::empty())
    } else {
        match extract_spec(fields.drop_last(), cols) {
            Err(e) => Err(e),
            Ok(a) => match field_spec(fields.last(), cols) {
                Err(e) => Err(e),
                Ok(b) => Ok(a + b),
            },
        }
    }
}

/// The leaves extracted for one field.
pub open spec fn field_spec(f: Field, cols: Option<Seq<Column>>) -> Result<
    Seq<Option<ColumnData>>,
    ExtractError,
>
    decreases f, 1int,
{
    let found = match cols {
        Some(cs) => lookup_column(cs, f.name),
        None => None,
    };
    match found {
        Some(c) => column_spec(f, c.data),
        None => if cols is None || f.nullable {
            match f.ty {
                Ty::Struct(inner) => extract_spec(inner, None),
                _ => Ok(seq![None]),
            }
        } else {
            Err(ExtractError::Missing(f.name))
        },
    }
}

/// The leaves extracted for one field from its column's data `d`.
pub open spec fn column_spec(f: Field, d: ColumnData) -> Result<
    Seq<Option<ColumnData>>,
    ExtractError,
>
    decreases f, 0int,
{
    match f.ty {
        Ty::Struct(inner) => match d {
            ColumnData::Struct(children) => extract_spec(inner, Some(children@)),
            _ => Err(error_for_types(f.name, f.ty, d.native_type_spec())),
        },
        _ => if leaf_accepts(d, f.ty) {
            Ok(seq![Some(d)])
        } else {
            Err(error_for_types(f.name, f.ty, d.native_type_spec()))
        },
    }
}

pub open spec fn cols_of<'a>(array: Option<&'a Vec<Column>>) -> Option<Seq<Column>> {
    match array {
        Some(a) => Some(a@),
        None => None,
    }
}

proof fn lemma_error_persists(fields: Seq<Field>, cols: Option<Seq<Column>>, k: int, m: int)
    requires
        0 <= k <= m <= fields.len(),
        extract_spec(fields.subrange(0, k), cols) is Err,
    ensures
        extract_spec(fields.subrange(0, m), cols) == extract_spec(fields.subrange(0, k), cols),
    decreases m - k,
{
    if k < m {
        lemma_error_persists(fields, cols, k, m - 1);
        assert(fields.subrange(0, m).drop_last() =~= fields.subrange(0, m - 1));
    }
}

/// The declared types of the leaves of `fields`, in extraction order.
pub open spec fn leaf_types(fields: Seq<Field>) -> Seq<Ty>
    decreases fields, 1int,
{
    if fields.len() == 0 {
        Seq::empty()
    } else {
        leaf_types(fields.drop_last()) + field_leaf_types(fields.last())
    }
}

pub open spec fn field_leaf_types(f: Field) -> Seq<Ty>
    decreases f, 0int,
{
    match f.ty {
        Ty::Struct(inner) => leaf_types(inner),
        t => seq![t],
    }
}

/// Each leaf in `l` is null or a column that can be read as the type at its position in `ts`.
pub open spec fn leaves_fit(l: Seq<Option<ColumnData>>, ts: Seq<Ty>) -> bool {
    &&& l.len() == ts.len()
    &&& forall|i: int| 0 <= i < l.len() ==> (#[trigger] l[i] matches Some(d) ==> leaf_accepts(d, ts[i]))
}

proof fn lemma_fit_concat(a: Seq<Option<ColumnData>>, ta: Seq<Ty>, b: Seq<Option<ColumnData>>, tb: Seq<Ty>)
    requires
        leaves_fit(a, ta),
        leaves_fit(b, tb),
    ensures
        leaves_fit(a + b, ta + tb),
{
    assert forall|i: int| 0 <= i < (a + b).len() implies (#[trigger] (a + b)[i] matches Some(d) ==> leaf_accepts(d, (ta + tb)[i])) by {
        if i >= a.len() {
            assert((a + b)[i] == b[i - a.len()]);
            assert((ta + tb)[i] == tb[i - ta.len()]);
        } else {
            assert((a + b)[i] == a[i]);
            assert((ta + tb)[i] == ta[i]);
        }
    }
}

/// A successful extraction yields one accessor per leaf of the schema, whatever the data, and
/// each is null or of a column that can be read as its leaf's declared type.
pub proof fn lemma_extract_fits(fields: Seq<Field>, cols: Option<Seq<Column>>)
    ensures
        extract_spec(fields, cols) matches Ok(l) ==> leaves_fit(l, leaf_types(fields)),
    decreases fields, 2int,
{
    if fields.len() > 0 {
        lemma_extract_fits(fields.drop_last(), cols);
        lemma_field_fits(fields.last(), cols);
        if let Ok(a) = extract_spec(fields.drop_last(), cols) {
            if let Ok(b) = field_spec(fields.last(), cols) {
                lemma_fit_concat(a, leaf_types(fields.drop_last()), b, field_leaf_types(fields.last()));
            }
        }
    } else {
        assert(leaf_types(fields) =~= Seq::<Ty>::empty());
    }
}

proof fn lemma_field_fits(f: Field, cols: Option<Seq<Column>>)
    ensures
        field_spec(f, cols) matches Ok(l) ==> leaves_fit(l, field_leaf_types(f)),
    decreases f, 1int,
{
    let found = match cols {
        Some(cs) => lookup_column(cs, f.name),
        None => None,
    };
    match found {
        Some(c) => lemma_column_fits(f, c.data),
        None => if let Ty::Struct(inner) = f.ty {
            lemma_extract_fits(inner, None);
        } else {
            let l: Seq<Option<ColumnData>> = seq![None];
            assert(l[0] is None);
        },
    }
}

proof fn lemma_column_fits(f: Field, d: ColumnData)
    ensures
        column_spec(f, d) matches Ok(l) ==> leaves_fit(l, field_leaf_types(f)),
    decreases f, 0int,
{
    if let Ty::Struct(inner) = f.ty {
        if let ColumnData::Struct(children) = d {
            lemma_extract_fits(inner, Some(children@));
        }
    } else {
        let l: Seq<Option<ColumnData>> = seq![Some(d)];
        assert(l[0] == Some(d));
    }
}

/// Below an absent struct every field extracts without error, and every leaf is null.
pub proof fn lemma_absent_struct_is_all_null(fields: Seq<Field>)
    ensures
        extract_spec(fields, None) is Ok,
        forall|i: int|
            0 <= i < extract_spec(fields, None)->Ok_0.len() ==> #[trigger] extract_spec(
                fields,
                None,
            )->Ok_0[i] is None,
    decreases fields, 2int,
{
    if fields.len() > 0 {
        lemma_absent_struct_is_all_null(fields.drop_last());
        lemma_absent_field_is_all_null(fields.last());
        let a = extract_spec(fields.drop_last(), None)->Ok_0;
        let b = field_spec(fields.last(), None)->Ok_0;
        assert forall|i: int| 0 <= i < (a + b).len() implies #[trigger] (a + b)[i] is None by {
            if i >= a.len() {
                assert((a + b)[i] == b[i - a.len()]);
            }
        }
    }
}

proof fn lemma_absent_field_is_all_null(f: Field)
    ensures
        field_spec(f, None) is Ok,
        forall|i: int|
            0 <= i < field_spec(f, None)->Ok_0.len() ==> #[trigger] field_spec(f, None)->Ok_0[i] is None,
    decreases f, 1int,
{
    if let Ty::Struct(inner) = f.ty {
        lemma_absent_struct_is_all_null(inner);
    }
}

/// A nullable struct field whose column is absent extracts without error, and every leaf
/// beneath it is null.
pub proof fn lemma_optional_struct_absent(f: Field, cols: Seq<Column>)
    requires
        f.nullable,
        f.ty is Struct,
        lookup_column(cols, f.name) is None,
    ensures
        field_spec(f, Some(cols)) is Ok,
        field_spec(f, Some(cols))->Ok_0.len() == extract_spec(f.ty->Struct_0, None)->Ok_0.len(),
        forall|i: int|
            0 <= i < field_spec(f, Some(cols))->Ok_0.len() ==> #[trigger] field_spec(
                f,
                Some(cols),
            )->Ok_0[i] is None,
{
    lemma_absent_struct_is_all_null(f.ty->Struct_0);
}

/// A required field whose column is absent, in a struct that is present, fails with
/// `MissingRequiredData` naming the field.
pub proof fn lemma_required_field_absent(f: Field, cols: Seq<Column>)
    requires
        !f.nullable,
        lookup_column(cols, f.name) is None,
    ensures
        field_spec(f, Some(cols)) == Err::<Seq<Option<ColumnData>>, _>(
            ExtractError::Missing(f.name),
        ),
{
}

/// A field declared as an integer whose column holds strings fails with a mismatch that names
/// both the declared and the native type.
pub proof fn lemma_integer_from_strings_mismatch(f: Field, cols: Seq<Column>)
    requires
        f.ty == Ty::Prim(PrimitiveType::Integer),
        lookup_column(cols, f.name) matches Some(c) && c.data is Utf8,
    ensures
        field_spec(f, Some(cols)) == Err::<Seq<Option<ColumnData>>, _>(
            ExtractError::Mismatch(f.name, Ty::Prim(PrimitiveType::Integer), NativeType::Utf8),
        ),
{
}

impl DataType {
    /// The native type of this declared type, if it has one.
    pub fn to_native(&self) -> (r: Option<NativeType>)
        ensures
            r == native_of(self@),
        decreases self, 0int,
    {
        match self {
            DataType::Primitive(p) => match p {
                PrimitiveType::String => Some(NativeType::Utf8),
                PrimitiveType::Long => Some(NativeType::Int64),
                PrimitiveType::Integer => Some(NativeType::Int32),
                PrimitiveType::Short => Some(NativeType::Int16),
                PrimitiveType::Byte => Some(NativeType::Int8),
                PrimitiveType::Float => Some(NativeType::Float32),
                PrimitiveType::Double => Some(NativeType::Float64),
                PrimitiveType::Boolean => Some(NativeType::Boolean),
                PrimitiveType::Binary => Some(NativeType::Binary),
                PrimitiveType::Date => Some(NativeType::Date32),
                PrimitiveType::Timestamp => Some(NativeType::TimestampMicros),
                PrimitiveType::Decimal(p, s) => {
                    if 1 <= *p && *p <= 38 && *s <= *p {
                        Some(NativeType::Decimal128(*p, *s))
                    } else {
                        None
                    }
                },
            },
            DataType::Array(a) => match a.element_type.to_native() {
                Some(_) => Some(NativeType::List),
                None => None,
            },
            DataType::Mapping(m) => {
                let k = m.key_type.to_native();
                let v = m.value_type.to_native();
                if k.is_some() && v.is_some() {
                    Some(NativeType::KeyValue)
                } else {
                    None
                }
            },
            DataType::Struct(s) => if all_fields_native(s) {
                Some(NativeType::Struct)
            } else {
                None
            },
        }
    }
}

fn all_fields_native(s: &StructType) -> (r: bool)
    ensures
        r == all_native(s@, s@.len() as int),
    decreases s, 1int,
{
    let ghost sv = s@;
    proof {
        lemma_struct_view(*s);
    }
    let mut i: usize = 0;
    while i < s.fields.len()
        invariant
            i <= s.fields.len(),
            sv == s@,
            sv.len() == s.fields@.len(),
            forall|k: int| 0 <= k < s.fields@.len() ==> #[trigger] sv[k] == s.fields@[k]@,
            all_native(sv, i as int),
        decreases s.fields.len() - i,
    {
        if s.fields[i].data_type.to_native().is_none() {
            proof {
                assert(!all_native(sv, i as int + 1));
                lemma_all_native_prefix(sv, i as int + 1, sv.len() as int);
            }
            return false;
        }
        i = i + 1;
    }
    true
}

proof fn lemma_all_native_prefix(fs: Seq<Field>, k: int, m: int)
    requires
        1 <= k <= m <= fs.len(),
        !all_native(fs, k),
    ensures
        !all_native(fs, m),
    decreases m - k,
{
    if k < m {
        lemma_all_native_prefix(fs, k, m - 1);
    }
}

/// The error for a field named `field_name`, declared `data_type`, whose column is of native
/// type `native`, where no accessor applies: the declared type has no native type; or the two
/// agree but cannot be read; or they differ.
pub fn get_error_for_types(data_type: &DataType, native: NativeType, field_name: &String) -> (r:
    Error)
    ensures
        error_is(r, error_for_types(field_name@, data_type@, native)),
{
    match data_type.to_native() {
        Some(expected) => {
            if expected == native {
                Error::UnextractableType { field: field_name.clone(), declared: data_type.clone() }
            } else {
                Error::TypeMismatch {
                    field: field_name.clone(),
                    declared: data_type.clone(),
                    native,
                }
            }
        },
        None => Error::UnsupportedType { field: field_name.clone(), declared: data_type.clone() },
    }
}

impl SimpleData {
    /// Appends to `out` one accessor per leaf of `schema`, in schema order, read from this
    /// batch; fails on the first field that cannot be extracted.
    pub fn extract_columns<'a>(&'a self, out: &mut Vec<Accessor<'a>>, schema: &StructType) -> (r:
        Result<(), Error>)
        ensures
            extract_spec(schema@, Some(self.columns@)) matches Ok(l) ==> (r is Ok && leaves(
                final(out)@,
            ) == leaves(old(out)@) + l),
            extract_spec(schema@, Some(self.columns@)) matches Err(e) ==> (r matches Err(x)
                && error_is(x, e)),
            r is Err ==> final(out)@ == old(out)@,
    {
        extract_columns_from_array(out, schema, Some(&self.columns))
    }
}

/// Appends to `out` one accessor per leaf of `schema`, read from the columns `array` (`None`:
/// the enclosing struct is absent, and every leaf reads null); on failure `out` is left as it
/// was.
pub fn extract_columns_from_array<'a>(
    out: &mut Vec<Accessor<'a>>,
    schema: &StructType,
    array: Option<&'a Vec<Column>>,
) -> (r: Result<(), Error>)
    ensures
        r is Ok ==> (final(out)@.len() >= old(out)@.len() && final(out)@.subrange(
            0,
            old(out)@.len() as int,
        ) == old(out)@),
        r is Err ==> final(out)@ == old(out)@,
        extract_spec(schema@, cols_of(array)) matches Ok(l) ==> (r is Ok && leaves(final(out)@)
            == leaves(old(out)@) + l),
        extract_spec(schema@, cols_of(array)) matches Err(e) ==> (r matches Err(x) && error_is(
            x,
            e,
        )),
    decreases schema, 1int,
{
    let ghost fs = schema@;
    let ghost cols = cols_of(array);
    let ghost start = leaves(out@);
    let ghost old_out = out@;
    let n0 = out.len();
    proof {
        lemma_struct_view(*schema);
        assert(fs.subrange(0, 0) =~= Seq::<Field>::empty());
        assert(leaves(out@) =~= start + Seq::<Option<ColumnData>>::empty());
    }
    let mut i: usize = 0;
    while i < schema.fields.len()
        invariant
            i <= schema.fields.len(),
            fs == schema@,
            cols == cols_of(array),
            fs.len() == schema.fields@.len(),
            forall|k: int| 0 <= k < schema.fields@.len() ==> #[trigger] fs[k] == schema.fields@[k]@,
            extract_spec(fs.subrange(0, i as int), cols) matches Ok(l) && leaves(out@) == start + l,
            n0 == old_out.len(),
            old_out == old(out)@,
            out@.len() >= n0,
            out@.subrange(0, n0 as int) == old_out,
        decreases schema.fields.len() - i,
    {
        let field = &schema.fields[i];
        let ghost before = leaves(out@);
        let ghost before_out = out@;
        let ghost f = fs[i as int];
        proof {
            assert(fs.subrange(0, i + 1).drop_last() =~= fs.subrange(0, i as int));
            assert(fs.subrange(0, i + 1).last() == f);
        }
        let col = match array {
            Some(a) => column_by_name(a, &field.name),
            None => None,
        };
        let step = match col {
            Some(c) => extract_column(out, field, &c.data),
            None => {
                if array.is_none() || field.nullable {
                    match &field.data_type {
                        DataType::Struct(inner) => extract_columns_from_array(out, inner, None),
                        _ => {
                            out.push(Accessor::Null);
                            proof {
                                assert(leaves(out@) =~= before + seq![None]);
                                assert(out@.subrange(0, before_out.len() as int) =~= before_out);
                            }
                            Ok(())
                        },
                    }
                } else {
                    Err(Error::MissingRequiredData(field.name.clone()))
                }
            },
        };
        match step {
            Ok(()) => {},
            Err(e) => {
                proof {
                    lemma_error_persists(fs, cols, i + 1, fs.len() as int);
                    assert(fs.subrange(0, fs.len() as int) =~= fs);
                }
                proof {
                    assert(out@ == before_out);
                }
                out.truncate(n0);
                proof {
                    assert(out@ =~= old_out);
                }
                return Err(e);
            },
        }
        proof {
            assert(out@.subrange(0, n0 as int) =~= before_out.subrange(0, n0 as int));
            let l = extract_spec(fs.subrange(0, i as int), cols)->Ok_0;
            let b = field_spec(f, cols)->Ok_0;
            assert(leaves(out@) =~= start + (l + b));
        }
        i = i + 1;
    }
    proof {
        assert(fs.subrange(0, fs.len() as int) =~= fs);
    }
    Ok(())
}

/// Appends to `out` the accessors of field `field` read from its column `col`: those of the
/// struct's leaves for a struct, else one accessor of the column's type. A column whose type
/// does not match the field's is an error; on failure `out` is left as it was.
pub fn extract_column<'a>(
    out: &mut Vec<Accessor<'a>>,
    field: &crate::schema::StructField,
    col: &'a ColumnData,
) -> (r: Result<(), Error>)
    ensures
        r is Ok ==> (final(out)@.len() >= old(out)@.len() && final(out)@.subrange(
            0,
            old(out)@.len() as int,
        ) == old(out)@),
        r is Err ==> final(out)@ == old(out)@,
        column_spec(field@, *col) matches Ok(l) ==> (r is Ok && leaves(final(out)@) == leaves(
            old(out)@,
        ) + l),
        column_spec(field@, *col) matches Err(e) ==> (r matches Err(x) && error_is(x, e)),
    decreases field, 0int,
{
    let ghost before = leaves(out@);
    match (col, &field.data_type) {
        (ColumnData::Struct(children), DataType::Struct(inner)) => {
            return extract_columns_from_array(out, inner, Some(children));
        },
        (ColumnData::Boolean(v), DataType::Primitive(PrimitiveType::Boolean)) => {
            out.push(Accessor::Boolean(v));
        },
        (ColumnData::Utf8(v), DataType::Primitive(PrimitiveType::String)) => {
            out.push(Accessor::Utf8(v));
        },
        (ColumnData::Int32(v), DataType::Primitive(PrimitiveType::Integer)) => {
            out.push(Accessor::Int32(v));
        },
        (ColumnData::Int64(v), DataType::Primitive(PrimitiveType::Long)) => {
            out.push(Accessor::Int64(v));
        },
        (ColumnData::List(v), DataType::Array(_)) => {
            out.push(Accessor::List(v));
        },
        (ColumnData::KeyValue(v), DataType::Mapping(_)) => {
            out.push(Accessor::KeyValue(v));
        },
        _ => {
            return Err(get_error_for_types(&field.data_type, col.native_type(), &field.name));
        },
    }
    proof {
        assert(leaves(out@) =~= before + seq![Some(*col)]);
        assert(out@.subrange(0, old(out)@.len() as int) =~= old(out)@);
    }
    Ok(())
}

} // verus!
