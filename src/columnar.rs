//! The columnar data this library reads: named columns of typed, nullable values, as a host
//! engine hands them over.
use vstd::prelude::*;

verus! {

/// The engine's own type of a column.
#[derive(Clone, Copy, Debug, PartialEq, Eq, Structural)]
pub enum NativeType {
    Null,
    Boolean,
    Int8,
    Int16,
    Int32,
    Int64,
    Float32,
    Float64,
    Utf8,
    Binary,
    Date32,
    TimestampMicros,
    Decimal128(u8, u8),
    List,
    KeyValue,
    Struct,
    /// A type outside those above.
    Unlisted,
}

/// The values of one column, one entry per row; `None` is a null.
#[derive(Debug)]
pub enum ColumnData {
    /// A column of the null type: every row is null.
    Null(usize),
    Boolean(Vec<Option<bool>>),
    Int32(Vec<Option<i32>>),
    Int64(Vec<Option<i64>>),
    Utf8(Vec<Option<String>>),
    /// A list of strings per row.
    List(Vec<Option<Vec<Option<String>>>>),
    /// A string-keyed map per row, as its entries in order.
    KeyValue(Vec<Option<Vec<(String, Option<String>)>>>),
    /// A struct column, as its child columns.
    Struct(Vec<Column>),
    /// A column of another native type, whose values this library does not read.
    Other(NativeType, usize),
}

#[derive(Debug)]
pub struct Column {
    pub name: String,
    pub data: ColumnData,
}

impl ColumnData {
    pub open spec fn native_type_spec(&self) -> NativeType {
        match self {
            ColumnData::Null(_) => NativeType::Null,
            ColumnData::Boolean(_) => NativeType::Boolean,
            ColumnData::Int32(_) => NativeType::Int32,
            ColumnData::Int64(_) => NativeType::Int64,
            ColumnData::Utf8(_) => NativeType::Utf8,
            ColumnData::List(_) => NativeType::List,
            ColumnData::KeyValue(_) => NativeType::KeyValue,
            ColumnData::Struct(_) => NativeType::Struct,
            ColumnData::Other(t, _) => *t,
        }
    }

    /// The native type of this column.
    #[verifier::when_used_as_spec(native_type_spec)]
    pub fn native_type(&self) -> (r: NativeType)
        ensures
            r == self.native_type_spec(),
    {
        match self {
            ColumnData::Null(_) => NativeType::Null,
            ColumnData::Boolean(_) => NativeType::Boolean,
            ColumnData::Int32(_) => NativeType::Int32,
            ColumnData::Int64(_) => NativeType::Int64,
            ColumnData::Utf8(_) => NativeType::Utf8,
            ColumnData::List(_) => NativeType::List,
            ColumnData::KeyValue(_) => NativeType::KeyValue,
            ColumnData::Struct(_) => NativeType::Struct,
            ColumnData::Other(t, _) => *t,
        }
    }
}

/// Position of the first column named `name`, or -1.
pub open spec fn column_index_from(cols: Seq<Column>, name: Seq<char>, i: int) -> int
    decreases cols.len() - i,
{
    if i < 0 || i >= cols.len() {
        -1
    } else if cols[i].name@ == name {
        i
    } else {
        column_index_from(cols, name, i + 1)
    }
}

/// The first column named `name`, unless there is none or it is of the null type.
pub open spec fn lookup_column(cols: Seq<Column>, name: Seq<char>) -> Option<Column> {
    let k = column_index_from(cols, name, 0);
    if k == -1 || cols[k].data.native_type_spec() == NativeType::Null {
        None
    } else {
        Some(cols[k])
    }
}

proof fn lemma_column_index_from(cols: Seq<Column>, name: Seq<char>, i: int, k: int)
    requires
        0 <= i <= k <= cols.len(),
        forall|j: int| i <= j < k ==> #[trigger] cols[j].name@ != name,
    ensures
        column_index_from(cols, name, i) == column_index_from(cols, name, k),
    decreases k - i,
{
    if i < k {
        lemma_column_index_from(cols, name, i + 1, k);
    }
}

/// The first column of `cols` named `name`, passing over one of the null type as absent.
pub fn column_by_name<'a>(cols: &'a Vec<Column>, name: &String) -> (r: Option<&'a Column>)
    ensures
        r matches Some(c) ==> lookup_column(cols@, name@) == Some(*c),
        r is None ==> lookup_column(cols@, name@) is None,
{
    let mut i: usize = 0;
    while i < cols.len()
        invariant
            i <= cols.len(),
            forall|j: int| 0 <= j < i ==> #[trigger] cols@[j].name@ != name@,
        decreases cols.len() - i,
    {
        if cols[i].name == *name {
            proof {
                lemma_column_index_from(cols@, name@, 0, i as int);
            }
            if cols[i].data.native_type() == NativeType::Null {
                return None;
            }
            return Some(&cols[i]);
        }
        i = i + 1;
    }
    proof {
        lemma_column_index_from(cols@, name@, 0, cols.len() as int);
    }
    None
}

/// A batch of rows, held column by column.
#[derive(Debug)]
pub struct SimpleData {
    pub columns: Vec<Column>,
    pub num_rows: usize,
}

impl SimpleData {
    pub fn new(columns: Vec<Column>, num_rows: usize) -> (r: SimpleData)
        ensures
            r.columns == columns,
            r.num_rows == num_rows,
    {
        SimpleData { columns, num_rows }
    }

    /// The number of rows.
    pub fn length(&self) -> (r: usize)
        ensures
            r == self.num_rows,
    {
        self.num_rows
    }
}

} // verus!
