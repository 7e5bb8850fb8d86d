//! Log actions: their schemas, and the records read out of a batch.
pub mod schemas;

use vstd::prelude::*;

use crate::columnar::{ColumnData, SimpleData};
use crate::engine_data::{non_null_strings, present};
use crate::error::Error;
use crate::extract::{extract_spec, leaf_accepts, leaf_types, leaves, leaves_fit, lemma_extract_fits, Accessor};
use crate::schema::{PrimitiveType, Ty};
use self::schemas::string_map_ty;
use crate::schema::StructType;
use self::schemas::{metadata_field, metadata_field_spec, protocol_field, protocol_field_spec};

verus! {

/// The string at `row` of leaf `l`; null where the leaf is null, not a string column, or
/// shorter than `row`.
pub open spec fn str_at(l: Option<ColumnData>, row: int) -> Option<Seq<char>> {
    match l {
        Some(ColumnData::Utf8(v)) => if 0 <= row < v@.len() && v@[row] is Some {
            Some(v@[row]->Some_0@)
        } else {
            None
        },
        _ => None,
    }
}

/// The 64-bit integer at `row` of leaf `l`, read as `str_at` reads strings.
pub open spec fn long_at(l: Option<ColumnData>, row: int) -> Option<i64> {
    match l {
        Some(ColumnData::Int64(v)) => if 0 <= row < v@.len() {
            v@[row]
        } else {
            None
        },
        _ => None,
    }
}

/// The 32-bit integer at `row` of leaf `l`, read as `str_at` reads strings.
pub open spec fn int_at(l: Option<ColumnData>, row: int) -> Option<i32> {
    match l {
        Some(ColumnData::Int32(v)) => if 0 <= row < v@.len() {
            v@[row]
        } else {
            None
        },
        _ => None,
    }
}

/// The non-null elements of the list at `row` of leaf `l`, read as `str_at` reads strings.
pub open spec fn list_at(l: Option<ColumnData>, row: int) -> Option<Seq<Seq<char>>> {
    match l {
        Some(ColumnData::List(v)) => if 0 <= row < v@.len() && v@[row] is Some {
            Some(present(v@[row]->Some_0@))
        } else {
            None
        },
        _ => None,
    }
}

pub(crate) fn str_at_row<'a>(a: &Accessor<'a>, row: usize) -> (r: Result<Option<&'a String>, Error>)
    ensures
        r matches Ok(x) ==> (match x {
            Some(s) => str_at(a@, row as int) == Some(s@),
            None => str_at(a@, row as int) is None,
        }),
        r is Err <==> !(*a is Null || *a is Utf8),
{
    match a {
        Accessor::Null => Ok(None),
        Accessor::Utf8(v) => if row < v.len() {
            match &v[row] {
                Some(s) => Ok(Some(s)),
                None => Ok(None),
            }
        } else {
            Ok(None)
        },
        _ => Err(Error::UnexpectedColumnType(String::from_str("string"))),
    }
}

pub(crate) fn long_at_row<'a>(a: &Accessor<'a>, row: usize) -> (r: Result<Option<i64>, Error>)
    ensures
        r matches Ok(x) ==> x == long_at(a@, row as int),
        r is Err <==> !(*a is Null || *a is Int64),
{
    match a {
        Accessor::Null => Ok(None),
        Accessor::Int64(v) => if row < v.len() {
            Ok(v[row])
        } else {
            Ok(None)
        },
        _ => Err(Error::UnexpectedColumnType(String::from_str("long"))),
    }
}

pub(crate) fn int_at_row<'a>(a: &Accessor<'a>, row: usize) -> (r: Result<Option<i32>, Error>)
    ensures
        r matches Ok(x) ==> x == int_at(a@, row as int),
        r is Err <==> !(*a is Null || *a is Int32),
{
    match a {
        Accessor::Null => Ok(None),
        Accessor::Int32(v) => if row < v.len() {
            Ok(v[row])
        } else {
            Ok(None)
        },
        _ => Err(Error::UnexpectedColumnType(String::from_str("int"))),
    }
}

pub(crate) fn list_at_row<'a>(a: &Accessor<'a>, row: usize) -> (r: Result<Option<Vec<String>>, Error>)
    ensures
        r matches Ok(x) ==> (match x {
            Some(l) => list_at(a@, row as int) == Some(l@.map_values(|s: String| s@)),
            None => list_at(a@, row as int) is None,
        }),
        r is Err <==> !(*a is Null || *a is List),
{
    match a {
        Accessor::Null => Ok(None),
        Accessor::List(v) => if row < v.len() {
            match &v[row] {
                Some(l) => Ok(Some(non_null_strings(l))),
                None => Ok(None),
            }
        } else {
            Ok(None)
        },
        _ => Err(Error::UnexpectedColumnType(String::from_str("list"))),
    }
}

/// The first row in `i..n` at which leaf `l` holds a string.
pub open spec fn first_present_from(l: Option<ColumnData>, i: int, n: int) -> Option<int>
    decreases n - i,
{
    if i < 0 || i >= n {
        None
    } else if str_at(l, i) is Some {
        Some(i)
    } else {
        first_present_from(l, i + 1, n)
    }
}

/// The first row below `n` at which leaf `l` holds a string.
pub open spec fn first_present_str(l: Option<ColumnData>, n: int) -> Option<int> {
    first_present_from(l, 0, n)
}

proof fn lemma_first_present_skip(l: Option<ColumnData>, i: int, k: int, n: int)
    requires
        0 <= i <= k,
        forall|j: int| i <= j < k && j < n ==> #[trigger] str_at(l, j) is None,
    ensures
        first_present_from(l, i, n) == first_present_from(l, k, n),
    decreases k - i,
{
    if i < k {
        lemma_first_present_skip(l, i + 1, k, n);
    }
}

/// The first row in `i..n` at which leaf `l` holds an integer.
pub open spec fn first_int_from(l: Option<ColumnData>, i: int, n: int) -> Option<int>
    decreases n - i,
{
    if i < 0 || i >= n {
        None
    } else if int_at(l, i) is Some {
        Some(i)
    } else {
        first_int_from(l, i + 1, n)
    }
}

/// The first row below `n` at which leaf `l` holds an integer.
pub open spec fn first_present_int(l: Option<ColumnData>, n: int) -> Option<int> {
    first_int_from(l, 0, n)
}

proof fn lemma_first_int_skip(l: Option<ColumnData>, i: int, k: int, n: int)
    requires
        0 <= i <= k,
        forall|j: int| i <= j < k && j < n ==> #[trigger] int_at(l, j) is None,
    ensures
        first_int_from(l, i, n) == first_int_from(l, k, n),
    decreases k - i,
{
    if i < k {
        lemma_first_int_skip(l, i + 1, k, n);
    }
}

/// `o` is the optional string `s` holds.
pub open spec fn opt_str_is(s: Option<Seq<char>>, o: Option<String>) -> bool {
    match o {
        Some(v) => s == Some(v@),
        None => s is None,
    }
}

/// `o` is the optional list of strings `s` holds.
pub open spec fn opt_list_is(s: Option<Seq<Seq<char>>>, o: Option<Vec<String>>) -> bool {
    match o {
        Some(v) => s == Some(v@.map_values(|x: String| x@)),
        None => s is None,
    }
}

/// The `metaData` action of a table.
#[derive(Debug)]
pub struct Metadata {
    pub id: String,
    pub name: Option<String>,
    pub description: Option<String>,
    pub format_provider: String,
    pub schema_string: String,
    pub partition_columns: Vec<String>,
    pub created_time: Option<i64>,
}

/// The `protocol` action of a table.
#[derive(Debug)]
pub struct Protocol {
    pub min_reader_version: i32,
    pub min_writer_version: i32,
    pub reader_features: Option<Vec<String>>,
    pub writer_features: Option<Vec<String>>,
}

/// The leaves of the `metaData` field of `data`.
#[verifier::opaque]
pub open spec fn metadata_leaves(data: SimpleData) -> Result<Seq<Option<ColumnData>>, crate::extract::ExtractError> {
    extract_spec(seq![metadata_field_spec()], Some(data.columns@))
}

/// The leaves of the `protocol` field of `data`.
#[verifier::opaque]
pub open spec fn protocol_leaves(data: SimpleData) -> Result<Seq<Option<ColumnData>>, crate::extract::ExtractError> {
    extract_spec(seq![protocol_field_spec()], Some(data.columns@))
}

/// Finds the first row, below `n`, whose leaf `k` of `getters` holds a string.
fn first_row_with_str<'a>(getters: &Vec<Accessor<'a>>, k: usize, n: usize) -> (r: Result<Option<usize>, Error>)
    requires
        k < getters@.len(),
    ensures
        r matches Ok(Some(row)) ==> first_present_str(getters@[k as int]@, n as int) == Some(
            row as int,
        ),
        r matches Ok(None) ==> first_present_str(getters@[k as int]@, n as int) is None,
        r matches Ok(Some(row)) ==> row < n && str_at(getters@[k as int]@, row as int) is Some,
        r is Err <==> !(getters@[k as int] is Null || getters@[k as int] is Utf8),
{
    match &getters[k] {
        Accessor::Null => {},
        Accessor::Utf8(_) => {},
        _ => {
            return Err(Error::UnexpectedColumnType(String::from_str("string")));
        },
    }
    let ghost l = getters@[k as int]@;
    let mut row: usize = 0;
    while row < n
        invariant
            row <= n,
            l == getters@[k as int]@,
            k < getters@.len(),
            forall|j: int| 0 <= j < row ==> #[trigger] str_at(l, j) is None,
            getters@[k as int] is Null || getters@[k as int] is Utf8,
        decreases n - row,
    {
        match str_at_row(&getters[k], row) {
            Err(e) => {
                return Err(e);
            },
            Ok(Some(_)) => {
                proof {
                    lemma_first_present_skip(l, 0, row as int, n as int);
                }
                return Ok(Some(row));
            },
            Ok(None) => {},
        }
        row = row + 1;
    }
    proof {
        lemma_first_present_skip(l, 0, n as int, n as int);
    }
    Ok(None)
}

/// Finds the first row, below `n`, whose leaf `k` of `getters` holds an integer.
fn first_row_with_int<'a>(getters: &Vec<Accessor<'a>>, k: usize, n: usize) -> (r: Result<Option<usize>, Error>)
    requires
        k < getters@.len(),
    ensures
        r matches Ok(Some(row)) ==> first_present_int(getters@[k as int]@, n as int) == Some(
            row as int,
        ),
        r matches Ok(None) ==> first_present_int(getters@[k as int]@, n as int) is None,
        r matches Ok(Some(row)) ==> row < n && int_at(getters@[k as int]@, row as int) is Some,
        r is Err <==> !(getters@[k as int] is Null || getters@[k as int] is Int32),
{
    match &getters[k] {
        Accessor::Null => {},
        Accessor::Int32(_) => {},
        _ => {
            return Err(Error::UnexpectedColumnType(String::from_str("int")));
        },
    }
    let ghost l = getters@[k as int]@;
    let mut row: usize = 0;
    while row < n
        invariant
            row <= n,
            l == getters@[k as int]@,
            k < getters@.len(),
            forall|j: int| 0 <= j < row ==> #[trigger] int_at(l, j) is None,
            getters@[k as int] is Null || getters@[k as int] is Int32,
        decreases n - row,
    {
        match int_at_row(&getters[k], row) {
            Err(e) => {
                return Err(e);
            },
            Ok(Some(_)) => {
                proof {
                    lemma_first_int_skip(l, 0, row as int, n as int);
                }
                return Ok(Some(row));
            },
            Ok(None) => {},
        }
        row = row + 1;
    }
    proof {
        lemma_first_int_skip(l, 0, n as int, n as int);
    }
    Ok(None)
}

/// Reads the `metaData` action at `row` from its nine leaf accessors.
fn visit_metadata<'a>(getters: &Vec<Accessor<'a>>, row: usize) -> (r: Result<Metadata, Error>)
    requires
        getters@.len() == 9,
    ensures
        r matches Ok(md) ==> (str_at(getters@[0]@, row as int) == Some(md.id@)
            && opt_str_is(str_at(getters@[1]@, row as int), md.name)
            && opt_str_is(str_at(getters@[2]@, row as int), md.description)
            && str_at(getters@[5]@, row as int) == Some(md.schema_string@)
            && str_at(getters@[3]@, row as int) == Some(md.format_provider@)
            && list_at(getters@[6]@, row as int) == Some(md.partition_columns@.map_values(|s: String| s@))
            && long_at(getters@[7]@, row as int) == md.created_time),
        str_at(getters@[0]@, row as int) is Some && (getters@[1] is Null || getters@[1] is Utf8)
            && (getters@[2] is Null || getters@[2] is Utf8)
            && str_at(getters@[3]@, row as int) is Some
            && str_at(getters@[5]@, row as int) is Some
            && list_at(getters@[6]@, row as int) is Some
            && (getters@[7] is Null || getters@[7] is Int64) ==> r is Ok,
{
    let id = match str_at_row(&getters[0], row) {
        Ok(Some(s)) => s.clone(),
        _ => {
            return Err(Error::MissingRequiredData(String::from_str("id")));
        },
    };
    let name = match str_at_row(&getters[1], row) {
        Ok(x) => match x {
            Some(s) => Some(s.clone()),
            None => None,
        },
        Err(e) => {
            return Err(e);
        },
    };
    let description = match str_at_row(&getters[2], row) {
        Ok(x) => match x {
            Some(s) => Some(s.clone()),
            None => None,
        },
        Err(e) => {
            return Err(e);
        },
    };
    let format_provider = match str_at_row(&getters[3], row) {
        Ok(Some(s)) => s.clone(),
        _ => {
            return Err(Error::MissingRequiredData(String::from_str("provider")));
        },
    };
    let schema_string = match str_at_row(&getters[5], row) {
        Ok(Some(s)) => s.clone(),
        _ => {
            return Err(Error::MissingRequiredData(String::from_str("schemaString")));
        },
    };
    let partition_columns = match list_at_row(&getters[6], row) {
        Ok(Some(l)) => l,
        _ => {
            return Err(Error::MissingRequiredData(String::from_str("partitionColumns")));
        },
    };
    let created_time = match long_at_row(&getters[7], row) {
        Ok(x) => x,
        Err(e) => {
            return Err(e);
        },
    };
    Ok(
        Metadata {
            id,
            name,
            description,
            format_provider,
            schema_string,
            partition_columns,
            created_time,
        },
    )
}

/// The declared types of the nine leaves of the `metaData` field.
pub open spec fn metadata_leaf_types() -> Seq<Ty> {
    seq![
        Ty::Prim(PrimitiveType::String),
        Ty::Prim(PrimitiveType::String),
        Ty::Prim(PrimitiveType::String),
        Ty::Prim(PrimitiveType::String),
        string_map_ty(true),
        Ty::Prim(PrimitiveType::String),
        Ty::Array(Box::new(Ty::Prim(PrimitiveType::String)), false),
        Ty::Prim(PrimitiveType::Long),
        string_map_ty(true)
    ]
}

proof fn lemma_metadata_leaves_fit(data: SimpleData)
    ensures
        metadata_leaves(data) matches Ok(l) ==> leaves_fit(l, metadata_leaf_types()),
{
    reveal(metadata_leaves);
    lemma_extract_fits(seq![metadata_field_spec()], Some(data.columns@));
    let md = metadata_field_spec().ty->Struct_0;
    reveal_with_fuel(leaf_types, 10);
    assert(leaf_types(md[3].ty->Struct_0) =~= seq![Ty::Prim(PrimitiveType::String), string_map_ty(true)]);
    assert(leaf_types(md) =~= metadata_leaf_types());
    assert(leaf_types(seq![metadata_field_spec()]) =~= metadata_leaf_types());
}

/// The values that a `metaData` action must have are present at `row`.
pub open spec fn metadata_complete(l: Seq<Option<ColumnData>>, row: int) -> bool {
    &&& str_at(l[3], row) is Some
    &&& str_at(l[5], row) is Some
    &&& list_at(l[6], row) is Some
}

fn metadata_getters<'a>(data: &'a SimpleData, getters: &mut Vec<Accessor<'a>>) -> (r: Result<(), Error>)
    requires
        old(getters)@.len() == 0,
    ensures
        metadata_leaves(*data) is Err ==> r is Err,
        metadata_leaves(*data) matches Ok(l) ==> (r is Ok && leaves(final(getters)@) == l),
{
    reveal(metadata_leaves);
    let fields = vec![metadata_field()];
    let ghost fv = fields@;
    let schema = StructType::new(fields);
    proof {
        assert(crate::schema::field_views(fv) =~= seq![metadata_field_spec()]);
    }
    let r = data.extract_columns(getters, &schema);
    proof {
        if r is Ok {
            assert(leaves(getters@) =~= Seq::<Option<ColumnData>>::empty() + metadata_leaves(*data)->Ok_0);
        }
    }
    r
}

impl Metadata {
    /// The `metaData` action held by the first of `data`'s rows that has one; `None` if no
    /// row has one.
    #[verifier::rlimit(60)]
    pub fn try_new_from_data(data: &SimpleData) -> (r: Result<Option<Metadata>, Error>)
        ensures
            metadata_leaves(*data) is Err ==> r is Err,
            metadata_leaves(*data) matches Ok(l) ==> (r is Ok <==> match first_present_str(
                l[0],
                data.num_rows as int,
            ) {
                None => true,
                Some(row) => metadata_complete(l, row),
            }),
            metadata_leaves(*data) matches Ok(l) ==> (r matches Ok(m) ==> (l.len() == 9
                && match first_present_str(l[0], data.num_rows as int) {
                None => m is None,
                Some(row) => m matches Some(md) && str_at(l[0], row) == Some(md.id@)
                    && opt_str_is(str_at(l[1], row), md.name)
                    && opt_str_is(str_at(l[2], row), md.description)
                    && str_at(l[5], row) == Some(md.schema_string@)
                    && str_at(l[3], row) == Some(md.format_provider@)
                    && list_at(l[6], row) == Some(md.partition_columns@.map_values(|s: String| s@))
                    && long_at(l[7], row) == md.created_time,
            })),
    {
        let mut getters: Vec<Accessor> = Vec::new();
        match metadata_getters(data, &mut getters) {
            Err(e) => {
                return Err(e);
            },
            Ok(()) => {},
        }
        let ghost l = metadata_leaves(*data)->Ok_0;
        proof {
            lemma_metadata_leaves_fit(*data);
            assert forall|k: int| 0 <= k < 9 implies #[trigger] getters@[k]@ == l[k] by {
                assert(leaves(getters@)[k] == getters@[k]@);
            }
            let ts = metadata_leaf_types();
            assert(l[0] matches Some(d) ==> leaf_accepts(d, ts[0]));
            assert(l[1] matches Some(d) ==> leaf_accepts(d, ts[1]));
            assert(l[2] matches Some(d) ==> leaf_accepts(d, ts[2]));
            assert(l[7] matches Some(d) ==> leaf_accepts(d, ts[7]));
            assert(getters@[0] is Null || getters@[0] is Utf8);
            assert(getters@[1] is Null || getters@[1] is Utf8);
            assert(getters@[2] is Null || getters@[2] is Utf8);
            assert(getters@[7] is Null || getters@[7] is Int64);
        }
        let row = match first_row_with_str(&getters, 0, data.length()) {
            Err(e) => {
                return Err(e);
            },
            Ok(None) => {
                return Ok(None);
            },
            Ok(Some(row)) => row,
        };
        match visit_metadata(&getters, row) {
            Ok(md) => Ok(Some(md)),
            Err(e) => Err(e),
        }
    }
}

/// Reads the `protocol` action at `row` from its four leaf accessors.
fn visit_protocol<'a>(getters: &Vec<Accessor<'a>>, row: usize) -> (r: Result<Protocol, Error>)
    requires
        getters@.len() == 4,
    ensures
        r matches Ok(p) ==> (int_at(getters@[0]@, row as int) == Some(p.min_reader_version)
            && int_at(getters@[1]@, row as int) == Some(p.min_writer_version)
            && list_at(getters@[2]@, row as int) == match p.reader_features {
                Some(f) => Some(f@.map_values(|s: String| s@)),
                None => None,
            }
            && list_at(getters@[3]@, row as int) == match p.writer_features {
                Some(f) => Some(f@.map_values(|s: String| s@)),
                None => None,
            }),
        int_at(getters@[0]@, row as int) is Some && int_at(getters@[1]@, row as int) is Some
            && (getters@[2] is Null || getters@[2] is List)
            && (getters@[3] is Null || getters@[3] is List) ==> r is Ok,
{
    let min_reader_version = match int_at_row(&getters[0], row) {
        Ok(Some(v)) => v,
        _ => {
            return Err(Error::MissingRequiredData(String::from_str("minReaderVersion")));
        },
    };
    let min_writer_version = match int_at_row(&getters[1], row) {
        Ok(Some(v)) => v,
        _ => {
            return Err(Error::MissingRequiredData(String::from_str("minWriterVersion")));
        },
    };
    let reader_features = match list_at_row(&getters[2], row) {
        Ok(x) => x,
        Err(e) => {
            return Err(e);
        },
    };
    let writer_features = match list_at_row(&getters[3], row) {
        Ok(x) => x,
        Err(e) => {
            return Err(e);
        },
    };
    Ok(Protocol { min_reader_version, min_writer_version, reader_features, writer_features })
}

/// The declared types of the four leaves of the `protocol` field.
pub open spec fn protocol_leaf_types() -> Seq<Ty> {
    seq![
        Ty::Prim(PrimitiveType::Integer),
        Ty::Prim(PrimitiveType::Integer),
        Ty::Array(Box::new(Ty::Prim(PrimitiveType::String)), false),
        Ty::Array(Box::new(Ty::Prim(PrimitiveType::String)), false)
    ]
}

proof fn lemma_protocol_leaves_fit(data: SimpleData)
    ensures
        protocol_leaves(data) matches Ok(l) ==> leaves_fit(l, protocol_leaf_types()),
{
    reveal(protocol_leaves);
    lemma_extract_fits(seq![protocol_field_spec()], Some(data.columns@));
    reveal_with_fuel(leaf_types, 6);
    assert(leaf_types(protocol_field_spec().ty->Struct_0) =~= protocol_leaf_types());
    assert(leaf_types(seq![protocol_field_spec()]) =~= protocol_leaf_types());
}

fn protocol_getters<'a>(data: &'a SimpleData, getters: &mut Vec<Accessor<'a>>) -> (r: Result<(), Error>)
    requires
        old(getters)@.len() == 0,
    ensures
        protocol_leaves(*data) is Err ==> r is Err,
        protocol_leaves(*data) matches Ok(l) ==> (r is Ok && leaves(final(getters)@) == l),
{
    reveal(protocol_leaves);
    let fields = vec![protocol_field()];
    let ghost fv = fields@;
    let schema = StructType::new(fields);
    proof {
        assert(crate::schema::field_views(fv) =~= seq![protocol_field_spec()]);
    }
    let r = data.extract_columns(getters, &schema);
    proof {
        if r is Ok {
            assert(leaves(getters@) =~= Seq::<Option<ColumnData>>::empty() + protocol_leaves(*data)->Ok_0);
        }
    }
    r
}

impl Protocol {
    /// The `protocol` action held by the first of `data`'s rows that has one; `None` if no
    /// row has one.
    #[verifier::rlimit(60)]
    pub fn try_new_from_data(data: &SimpleData) -> (r: Result<Option<Protocol>, Error>)
        ensures
            protocol_leaves(*data) is Err ==> r is Err,
            protocol_leaves(*data) matches Ok(l) ==> (r is Ok <==> match first_present_int(
                l[0],
                data.num_rows as int,
            ) {
                None => true,
                Some(row) => int_at(l[1], row) is Some,
            }),
            protocol_leaves(*data) matches Ok(l) ==> (r matches Ok(m) ==> (l.len() == 4
                && match first_present_int(l[0], data.num_rows as int) {
                None => m is None,
                Some(row) => m matches Some(p) && int_at(l[0], row) == Some(p.min_reader_version)
                    && int_at(l[1], row) == Some(p.min_writer_version)
                    && opt_list_is(list_at(l[2], row), p.reader_features)
                    && opt_list_is(list_at(l[3], row), p.writer_features),
            })),
    {
        let mut getters: Vec<Accessor> = Vec::new();
        match protocol_getters(data, &mut getters) {
            Err(e) => {
                return Err(e);
            },
            Ok(()) => {},
        }
        let ghost l = protocol_leaves(*data)->Ok_0;
        proof {
            lemma_protocol_leaves_fit(*data);
            assert forall|k: int| 0 <= k < 4 implies #[trigger] getters@[k]@ == l[k] by {
                assert(leaves(getters@)[k] == getters@[k]@);
            }
            let ts = protocol_leaf_types();
            assert(l[0] matches Some(d) ==> leaf_accepts(d, ts[0]));
            assert(l[2] matches Some(d) ==> leaf_accepts(d, ts[2]));
            assert(l[3] matches Some(d) ==> leaf_accepts(d, ts[3]));
            assert(getters@[0] is Null || getters@[0] is Int32);
            assert(getters@[2] is Null || getters@[2] is List);
            assert(getters@[3] is Null || getters@[3] is List);
        }
        let row = match first_row_with_int(&getters, 0, data.length()) {
            Err(e) => {
                return Err(e);
            },
            Ok(None) => {
                return Ok(None);
            },
            Ok(Some(row)) => row,
        };
        match visit_protocol(&getters, row) {
            Ok(p) => Ok(Some(p)),
            Err(e) => Err(e),
        }
    }
}

} // verus!
