//! Scans over a snapshot: the state shared by all files of a scan, the batches of candidate
//! files with their selection vectors, and the files that a scan reads.
use vstd::prelude::*;

use crate::actions::schemas::add_field;
use crate::actions::{int_at_row, long_at, long_at_row, str_at, str_at_row};
use crate::actions::schemas::add_field_spec;
use crate::columnar::{ColumnData, SimpleData};
use crate::dv::{parse_url, url_parses, DeletionVectorDescriptor, DvInfo};
use crate::error::Error;
use crate::extract::{extract_spec, leaf_accepts, leaf_types, leaves, leaves_fit, lemma_extract_fits, Accessor};
use crate::actions::int_at;
use crate::actions::schemas::string_map_ty;
use crate::schema::{PrimitiveType, Ty};
use crate::schema::{field_views, StructType};

verus! {

/// The value of `key` among `entries`, the last entry with the key winning.
pub open spec fn lookup(entries: Seq<(String, String)>, key: Seq<char>) -> Option<Seq<char>>
    decreases entries.len(),
{
    if entries.len() == 0 {
        None
    } else if entries.last().0@ == key {
        Some(entries.last().1@)
    } else {
        lookup(entries.drop_last(), key)
    }
}

/// A string-keyed map of strings, such as a file's partition values.
///
/// It is held as the list of its insertions rather than as a hash map keyed by `String`,
/// for which Verus can state nothing about lookups. A lookup sees the last value inserted
/// under its key, just as a map's `insert` replaces an earlier value: `lookup` says so.
#[derive(Debug)]
pub struct CStringMap {
    values: Vec<(String, String)>,
}

impl CStringMap {
    /// The entries, in the order they were inserted.
    pub closed spec fn view(&self) -> Seq<(String, String)> {
        self.values@
    }

    pub fn new() -> (r: CStringMap)
        ensures
            r@.len() == 0,
    {
        CStringMap { values: Vec::new() }
    }

    /// Sets `key` to `value`, replacing any earlier value of `key`.
    pub fn insert(&mut self, key: String, value: String)
        ensures
            final(self)@ == old(self)@.push((key, value)),
            lookup(final(self)@, key@) == Some(value@),
    {
        self.values.push((key, value));
        proof {
            assert(self@.drop_last() =~= old(self)@);
        }
    }

    /// The number of entries inserted.
    pub fn len(&self) -> (r: usize)
        ensures
            r == self@.len(),
    {
        self.values.len()
    }
}

/// The value of `key` in `map`, without taking the map apart; `None` if the key is absent.
pub fn get_from_map(map: &CStringMap, key: &str) -> (r: Option<String>)
    ensures
        match r {
            Some(v) => lookup(map@, key@) == Some(v@),
            None => lookup(map@, key@) is None,
        },
{
    let k = String::from_str(key);
    let mut i: usize = map.values.len();
    proof {
        assert(map.values@.subrange(0, i as int) =~= map.values@);
    }
    while i > 0
        invariant
            k@ == key@,
            i <= map.values@.len(),
            map@ == map.values@,
            lookup(map@, key@) == lookup(map.values@.subrange(0, i as int), key@),
        decreases i,
    {
        proof {
            assert(map.values@.subrange(0, i as int).drop_last() =~= map.values@.subrange(
                0,
                i - 1,
            ));
        }
        if map.values[i - 1].0 == k {
            return Some(map.values[i - 1].1.clone());
        }
        i = i - 1;
    }
    None
}

/// The partition map of `entries`: each entry with a non-null value, in order.
pub open spec fn non_null_entries(entries: Seq<(String, Option<String>)>) -> Seq<(Seq<char>, Seq<char>)>
    decreases entries.len(),
{
    if entries.len() == 0 {
        Seq::empty()
    } else {
        let e = entries.last();
        match e.1 {
            Some(v) => non_null_entries(entries.drop_last()).push((e.0@, v@)),
            None => non_null_entries(entries.drop_last()),
        }
    }
}

pub open spec fn entries_view(s: Seq<(String, String)>) -> Seq<(Seq<char>, Seq<char>)> {
    s.map_values(|e: (String, String)| (e.0@, e.1@))
}

/// The map of the entries of a map value whose value is not null.
pub fn partition_map(entries: &Vec<(String, Option<String>)>) -> (r: CStringMap)
    ensures
        entries_view(r@) == non_null_entries(entries@),
{
    let mut m = CStringMap::new();
    let mut i: usize = 0;
    proof {
        assert(entries@.subrange(0, 0) =~= Seq::<(String, Option<String>)>::empty());
        assert(entries_view(m@) =~= Seq::<(Seq<char>, Seq<char>)>::empty());
    }
    while i < entries.len()
        invariant
            i <= entries@.len(),
            entries_view(m@) == non_null_entries(entries@.subrange(0, i as int)),
        decreases entries@.len() - i,
    {
        proof {
            assert(entries@.subrange(0, i + 1).drop_last() =~= entries@.subrange(0, i as int));
        }
        let ghost before = m@;
        match &entries[i].1 {
            Some(v) => {
                m.insert(entries[i].0.clone(), v.clone());
                proof {
                    assert(entries_view(m@) =~= entries_view(before).push(
                        (entries@[i as int].0@, v@),
                    ));
                }
            },
            None => {},
        }
        i = i + 1;
    }
    proof {
        assert(entries@.subrange(0, entries@.len() as int) =~= entries@);
    }
    m
}

/// A table at one version, as the log replay hands it over: the table root, the partition
/// columns, and the batches of candidate file actions with their selection vectors.
#[derive(Debug)]
pub struct Snapshot {
    pub table_root: String,
    pub version: u64,
    pub partition_columns: Vec<String>,
    pub scan_batches: Vec<(SimpleData, Vec<bool>)>,
}

/// A planned read over a snapshot, with an optional predicate that is passed through.
#[derive(Debug)]
pub struct Scan {
    snapshot: Snapshot,
    predicate: Option<String>,
}

/// Builds a `Scan`.
#[derive(Debug)]
pub struct ScanBuilder {
    snapshot: Snapshot,
    predicate: Option<String>,
}

impl ScanBuilder {
    pub fn new(snapshot: Snapshot) -> (r: ScanBuilder)
        ensures
            r.snapshot_spec() == snapshot,
            r.predicate_spec() is None,
    {
        ScanBuilder { snapshot, predicate: None }
    }

    pub closed spec fn snapshot_spec(&self) -> Snapshot {
        self.snapshot
    }

    pub closed spec fn predicate_spec(&self) -> Option<String> {
        self.predicate
    }

    /// Sets the predicate of the scan.
    pub fn with_predicate(self, predicate: String) -> (r: ScanBuilder)
        ensures
            r.snapshot_spec() == self.snapshot_spec(),
            r.predicate_spec() == Some(predicate),
    {
        ScanBuilder { snapshot: self.snapshot, predicate: Some(predicate) }
    }

    pub fn build(self) -> (r: Scan)
        ensures
            r.snapshot_spec() == self.snapshot_spec(),
            r.predicate_spec() == self.predicate_spec(),
    {
        Scan { snapshot: self.snapshot, predicate: self.predicate }
    }
}

/// The read-time constants shared by every file of a scan.
#[derive(Debug)]
pub struct GlobalScanState {
    pub table_root: String,
    pub partition_columns: Vec<String>,
}

impl GlobalScanState {
    /// The table root as a URL; `InvalidUrl` where it is not one.
    pub fn table_root_url(&self) -> (r: Result<url::Url, Error>)
        ensures
            r is Ok <==> url_parses(self.table_root@),
            r matches Err(e) ==> (e matches Error::InvalidUrl(p) && p@ == self.table_root@),
    {
        match parse_url(self.table_root.as_str()) {
            Ok(u) => Ok(u),
            Err(_) => Err(Error::InvalidUrl(self.table_root.clone())),
        }
    }
}

/// The candidate-file batches of a scan, each with its selection vector, in log order; a
/// single pass.
#[derive(Debug)]
pub struct KernelScanDataIterator {
    batches: Vec<(SimpleData, Vec<bool>)>,
    pos: usize,
}

impl KernelScanDataIterator {
    /// The batches not yet handed out.
    pub closed spec fn remaining(&self) -> Seq<(SimpleData, Vec<bool>)> {
        self.batches@.subrange(self.pos as int, self.batches@.len() as int)
    }

    pub closed spec fn wf(&self) -> bool {
        self.pos <= self.batches@.len()
    }

    /// The next batch and its selection vector; `None` once all were handed out.
    pub fn kernel_scan_data_next(&mut self) -> (r: Option<&(SimpleData, Vec<bool>)>)
        requires
            old(self).wf(),
        ensures
            final(self).wf(),
            old(self).remaining().len() == 0 ==> r is None && final(self).remaining() == old(
                self,
            ).remaining(),
            old(self).remaining().len() > 0 ==> (r matches Some(b) && *b == old(self).remaining()[0]
                && final(self).remaining() == old(self).remaining().drop_first()),
    {
        if self.pos < self.batches.len() {
            let p = self.pos;
            self.pos = self.pos + 1;
            proof {
                assert(self.remaining() =~= old(self).remaining().drop_first());
            }
            Some(&self.batches[p])
        } else {
            None
        }
    }
}

/// A file a scan reads: its path relative to the table root, its size, its partition values
/// and its deletion vector.
#[derive(Debug)]
pub struct ScanFile {
    pub path: String,
    pub size: i64,
    pub partition_values: CStringMap,
    pub dv_info: DvInfo,
}

/// The files of a scan, in log order; a single pass.
#[derive(Debug)]
pub struct KernelScanFileIterator {
    files: Vec<ScanFile>,
    pos: usize,
}

impl KernelScanFileIterator {
    /// The files not yet handed out.
    pub closed spec fn remaining(&self) -> Seq<ScanFile> {
        self.files@.subrange(self.pos as int, self.files@.len() as int)
    }

    pub closed spec fn wf(&self) -> bool {
        self.pos <= self.files@.len()
    }

    /// The next file; `None` once all were handed out.
    pub fn kernel_scan_files_next(&mut self) -> (r: Option<&ScanFile>)
        requires
            old(self).wf(),
        ensures
            final(self).wf(),
            old(self).remaining().len() == 0 ==> r is None && final(self).remaining() == old(
                self,
            ).remaining(),
            old(self).remaining().len() > 0 ==> (r matches Some(f) && *f == old(self).remaining()[0]
                && final(self).remaining() == old(self).remaining().drop_first()),
    {
        if self.pos < self.files.len() {
            let p = self.pos;
            self.pos = self.pos + 1;
            proof {
                assert(self.remaining() =~= old(self).remaining().drop_first());
            }
            Some(&self.files[p])
        } else {
            None
        }
    }
}

/// An exhausted file iterator stays exhausted: pulling from it yields nothing and leaves it
/// as it was, however often it is pulled.
pub proof fn lemma_exhausted_file_iterator(it: KernelScanFileIterator)
    requires
        it.wf(),
        it.remaining().len() == 0,
    ensures
        it.remaining() == Seq::<ScanFile>::empty(),
{
    assert(it.remaining() =~= Seq::<ScanFile>::empty());
}

impl Scan {
    pub closed spec fn snapshot_spec(&self) -> Snapshot {
        self.snapshot
    }

    pub closed spec fn predicate_spec(&self) -> Option<String> {
        self.predicate
    }

    /// The predicate of the scan, if any.
    pub fn predicate(&self) -> (r: &Option<String>)
        ensures
            *r == self.predicate_spec(),
    {
        &self.predicate
    }

    /// The constants shared by every file of the scan.
    pub fn global_scan_state(&self) -> (r: GlobalScanState)
        ensures
            r.table_root@ == self.snapshot_spec().table_root@,
            r.partition_columns@.map_values(|s: String| s@) == self.snapshot_spec().partition_columns@.map_values(
                |s: String| s@,
            ),
    {
        let mut cols: Vec<String> = Vec::new();
        let mut i: usize = 0;
        let src = &self.snapshot.partition_columns;
        while i < src.len()
            invariant
                i <= src@.len(),
                cols@.len() == i,
                forall|k: int| 0 <= k < i ==> #[trigger] cols@[k]@ == src@[k]@,
            decreases src@.len() - i,
        {
            cols.push(src[i].clone());
            i = i + 1;
        }
        proof {
            assert(cols@.map_values(|s: String| s@) =~= src@.map_values(|s: String| s@));
        }
        GlobalScanState { table_root: self.snapshot.table_root.clone(), partition_columns: cols }
    }

    /// The candidate-file batches of the scan with their selection vectors, in log order.
    pub fn scan_data(self) -> (r: KernelScanDataIterator)
        ensures
            r.wf(),
            r.remaining() == self.snapshot_spec().scan_batches@,
    {
        let r = KernelScanDataIterator { batches: self.snapshot.scan_batches, pos: 0 };
        proof {
            assert(r.remaining() =~= r.batches@);
        }
        r
    }

    /// The files the scan reads: those of every batch, in log order, that its selection
    /// vector keeps and that hold an `add` action.
    pub fn files(self) -> (r: Result<KernelScanFileIterator, Error>)
        ensures
            r is Ok <==> batches_scannable(
                self.snapshot_spec().scan_batches@,
                self.snapshot_spec().scan_batches@.len() as int,
            ),
            r matches Ok(it) ==> it.wf(),
            r matches Ok(it) ==> it.remaining().len() == scanned_count(
                self.snapshot_spec().scan_batches@,
                self.snapshot_spec().scan_batches@.len() as int,
            ),
            r matches Ok(it) ==> files_of_batches(
                self.snapshot_spec().scan_batches@,
                self.snapshot_spec().scan_batches@.len() as int,
                it.remaining(),
            ),
    {
        let batches = &self.snapshot.scan_batches;
        let mut files: Vec<ScanFile> = Vec::new();
        let mut i: usize = 0;
        while i < batches.len()
            invariant
                i <= batches@.len(),
                batches@ == self.snapshot_spec().scan_batches@,
                files@.len() == scanned_count(batches@, i as int),
                files_of_batches(batches@, i as int, files@),
                batches_scannable(batches@, i as int),
            decreases batches@.len() - i,
        {
            let (data, selection) = &batches[i];
            match visit_scan_files(data, selection) {
                Ok(mut found) => {
                    let ghost before = files@;
                    let ghost got = found@;
                    files.append(&mut found);
                    proof {
                        let c = scanned_count(batches@, i as int);
                        assert(files@.subrange(0, c) =~= before);
                        assert(files@.subrange(c, files@.len() as int) =~= got);
                    }
                },
                Err(e) => {
                    proof {
                        assert(!batch_scannable(batches@[i as int]));
                    }
                    return Err(e);
                },
            }
            i = i + 1;
        }
        let it = KernelScanFileIterator { files, pos: 0 };
        proof {
            assert(it.remaining() =~= it.files@);
        }
        Ok(it)
    }
}

/// The leaves of the `add` field of `data`.
#[verifier::opaque]
pub open spec fn add_leaves(data: SimpleData) -> Result<Seq<Option<ColumnData>>, crate::extract::ExtractError> {
    extract_spec(seq![add_field_spec()], Some(data.columns@))
}

/// The declared types of the fifteen leaves of the `add` field.
pub open spec fn add_leaf_types() -> Seq<Ty> {
    seq![
        Ty::Prim(PrimitiveType::String),
        string_map_ty(true),
        Ty::Prim(PrimitiveType::Long),
        Ty::Prim(PrimitiveType::Long),
        Ty::Prim(PrimitiveType::Boolean),
        Ty::Prim(PrimitiveType::String),
        string_map_ty(true),
        Ty::Prim(PrimitiveType::String),
        Ty::Prim(PrimitiveType::String),
        Ty::Prim(PrimitiveType::Integer),
        Ty::Prim(PrimitiveType::Integer),
        Ty::Prim(PrimitiveType::Long),
        Ty::Prim(PrimitiveType::Long),
        Ty::Prim(PrimitiveType::Long),
        Ty::Prim(PrimitiveType::String)
    ]
}

proof fn lemma_add_leaves_fit(data: SimpleData)
    ensures
        add_leaves(data) matches Ok(l) ==> leaves_fit(l, add_leaf_types()),
{
    reveal(add_leaves);
    lemma_extract_fits(seq![add_field_spec()], Some(data.columns@));
    let add = add_field_spec().ty->Struct_0;
    reveal_with_fuel(leaf_types, 12);
    assert(leaf_types(add[7].ty->Struct_0) =~= seq![
        Ty::Prim(PrimitiveType::String),
        Ty::Prim(PrimitiveType::String),
        Ty::Prim(PrimitiveType::Integer),
        Ty::Prim(PrimitiveType::Integer),
        Ty::Prim(PrimitiveType::Long),
    ]);
    assert(leaf_types(add) =~= add_leaf_types());
    assert(leaf_types(seq![add_field_spec()]) =~= add_leaf_types());
}

/// The map at `row` of leaf `l` is present.
pub open spec fn map_present(l: Option<ColumnData>, row: int) -> bool {
    match l {
        Some(ColumnData::KeyValue(v)) => 0 <= row < v@.len() && v@[row] is Some,
        _ => false,
    }
}

/// The values that an `add` action must have are present at `row`: its size and partition
/// values, and, where it has a deletion vector, the vector's path, size and cardinality.
pub open spec fn add_complete(l: Seq<Option<ColumnData>>, row: int) -> bool {
    &&& long_at(l[2], row) is Some
    &&& map_present(l[1], row)
    &&& str_at(l[7], row) is Some ==> {
        &&& str_at(l[8], row) is Some
        &&& int_at(l[10], row) is Some
        &&& long_at(l[11], row) is Some
    }
}

/// The accessors of the `add` leaves are of the kinds their declared types read.
pub open spec fn add_getter_kinds<'a>(g: Seq<Accessor<'a>>) -> bool {
    &&& g.len() == 15
    &&& g[0] is Null || g[0] is Utf8
    &&& g[2] is Null || g[2] is Int64
    &&& g[7] is Null || g[7] is Utf8
    &&& g[8] is Null || g[8] is Utf8
    &&& g[9] is Null || g[9] is Int32
    &&& g[10] is Null || g[10] is Int32
    &&& g[11] is Null || g[11] is Int64
}

fn add_getters<'a>(data: &'a SimpleData, getters: &mut Vec<Accessor<'a>>) -> (r: Result<(), Error>)
    requires
        old(getters)@.len() == 0,
    ensures
        add_leaves(*data) is Err ==> r is Err,
        add_leaves(*data) matches Ok(l) ==> (r is Ok && leaves(final(getters)@) == l),
{
    reveal(add_leaves);
    let fields = vec![add_field()];
    let ghost fv = fields@;
    let schema = StructType::new(fields);
    proof {
        assert(field_views(fv) =~= seq![add_field_spec()]);
    }
    let r = data.extract_columns(getters, &schema);
    proof {
        if r is Ok {
            assert(leaves(getters@) =~= Seq::<Option<ColumnData>>::empty() + add_leaves(*data)->Ok_0);
        }
    }
    r
}

/// Row `row` is selected by `selection` and holds an `add` action (its path is present).
pub open spec fn row_is_scanned(path_leaf: Option<ColumnData>, selection: Seq<bool>, row: int) -> bool {
    row < selection.len() && selection[row] && str_at(path_leaf, row) is Some
}

/// The rows below `n` that are scanned, in order.
pub open spec fn scanned_rows(path_leaf: Option<ColumnData>, selection: Seq<bool>, n: int) -> Seq<int>
    decreases n,
{
    if n <= 0 {
        Seq::empty()
    } else if row_is_scanned(path_leaf, selection, n - 1) {
        scanned_rows(path_leaf, selection, n - 1).push(n - 1)
    } else {
        scanned_rows(path_leaf, selection, n - 1)
    }
}

/// The number of rows that the first `n` batches scan.
pub open spec fn scanned_count(batches: Seq<(SimpleData, Vec<bool>)>, n: int) -> int
    decreases n,
{
    if n <= 0 {
        0
    } else {
        scanned_count(batches, n - 1) + match add_leaves(batches[n - 1].0) {
            Ok(l) => scanned_rows(l[0], batches[n - 1].1@, batches[n - 1].0.num_rows as int).len()
                as int,
            Err(_) => 0,
        }
    }
}

/// Batches none of whose rows is scanned give no file: a scan over them yields an iterator
/// that is exhausted from the start.
pub proof fn lemma_no_adds_no_files(batches: Seq<(SimpleData, Vec<bool>)>, n: int)
    requires
        0 <= n <= batches.len(),
        forall|i: int|
            0 <= i < n ==> (#[trigger] add_leaves(batches[i].0) matches Ok(l) ==> scanned_rows(
                l[0],
                batches[i].1@,
                batches[i].0.num_rows as int,
            ).len() == 0),
    ensures
        scanned_count(batches, n) == 0,
    decreases n,
{
    if n > 0 {
        lemma_no_adds_no_files(batches, n - 1);
        assert(add_leaves(batches[n - 1].0) matches Ok(l) ==> scanned_rows(
            l[0],
            batches[n - 1].1@,
            batches[n - 1].0.num_rows as int,
        ).len() == 0);
    }
}

/// The `add` actions of a batch extract, and every row its selection vector keeps has the
/// values an `add` action must have.
pub open spec fn batch_scannable(b: (SimpleData, Vec<bool>)) -> bool {
    add_leaves(b.0) matches Ok(l) && scanned_rows_complete(l, b.1@, b.0.num_rows as int)
}

/// Each of the first `n` batches is scannable.
pub open spec fn batches_scannable(batches: Seq<(SimpleData, Vec<bool>)>, n: int) -> bool {
    forall|i: int| 0 <= i < n ==> #[trigger] batch_scannable(batches[i])
}

/// Every scanned row below `n` has the values an `add` action must have.
pub open spec fn scanned_rows_complete(l: Seq<Option<ColumnData>>, selection: Seq<bool>, n: int) -> bool {
    forall|row: int|
        0 <= row < n && #[trigger] row_is_scanned(l[0], selection, row) ==> add_complete(l, row)
}

proof fn lemma_files_of_rows_push(
    l: Seq<Option<ColumnData>>,
    rows: Seq<int>,
    files: Seq<ScanFile>,
    row: int,
    f: ScanFile,
)
    requires
        files_of_rows(l, rows, files),
        scan_file_at(l, row, f),
    ensures
        files_of_rows(l, rows.push(row), files.push(f)),
{
    let r2 = rows.push(row);
    let f2 = files.push(f);
    assert forall|k: int| 0 <= k < r2.len() implies scan_file_at(l, r2[k], #[trigger] f2[k]) by {
        if k < rows.len() {
            assert(f2[k] == files[k]);
            assert(r2[k] == rows[k]);
        }
    }
}

/// `files` are the files of the first `n` batches: those of each batch, in batch order, as
/// `visit_scan_files` gives them.
pub open spec fn files_of_batches(
    batches: Seq<(SimpleData, Vec<bool>)>,
    n: int,
    files: Seq<ScanFile>,
) -> bool
    decreases n,
{
    if n <= 0 {
        files.len() == 0
    } else {
        let c = scanned_count(batches, n - 1);
        let b = batches[n - 1];
        &&& 0 <= c <= files.len()
        &&& files_of_batches(batches, n - 1, files.subrange(0, c))
        &&& match add_leaves(b.0) {
            Ok(l) => files_of_rows(
                l,
                scanned_rows(l[0], b.1@, b.0.num_rows as int),
                files.subrange(c, files.len() as int),
            ),
            Err(_) => files.len() == c,
        }
    }
}

/// Each of `files` is the scan file described, in the `add` leaves `l`, at the row of the same
/// position in `rows`.
pub open spec fn files_of_rows(l: Seq<Option<ColumnData>>, rows: Seq<int>, files: Seq<ScanFile>) -> bool {
    &&& files.len() == rows.len()
    &&& forall|k: int| 0 <= k < rows.len() ==> scan_file_at(l, rows[k], #[trigger] files[k])
}

/// The entries of the map at `row` of leaf `l`; none where it is absent.
pub open spec fn map_entries_at(l: Option<ColumnData>, row: int) -> Seq<(String, Option<String>)> {
    match l {
        Some(ColumnData::KeyValue(v)) => if 0 <= row < v@.len() && v@[row] is Some {
            v@[row]->Some_0@
        } else {
            Seq::empty()
        },
        _ => Seq::empty(),
    }
}

/// `info` is the deletion vector information at `row` of the `add` leaves `l`: none where the
/// storage type is null, else the values of the five descriptor leaves.
pub open spec fn dv_info_at(l: Seq<Option<ColumnData>>, row: int, info: DvInfo) -> bool {
    match info.deletion_vector {
        None => str_at(l[7], row) is None,
        Some(d) => {
            &&& str_at(l[7], row) == Some(d.storage_type@)
            &&& str_at(l[8], row) == Some(d.path_or_inline_dv@)
            &&& int_at(l[9], row) == d.offset
            &&& int_at(l[10], row) == Some(d.size_in_bytes)
            &&& long_at(l[11], row) == Some(d.cardinality)
        },
    }
}

/// `f` is the scan file described at `row` of the `add` leaves `l`: its path, size, partition
/// values (the entries whose value is not null) and deletion vector information.
pub open spec fn scan_file_at(l: Seq<Option<ColumnData>>, row: int, f: ScanFile) -> bool {
    &&& str_at(l[0], row) == Some(f.path@)
    &&& long_at(l[2], row) == Some(f.size)
    &&& entries_view(f.partition_values@) == non_null_entries(map_entries_at(l[1], row))
    &&& dv_info_at(l, row, f.dv_info)
}

/// The deletion vector descriptor at `row`, read from its five leaves (storage type, path or
/// inline content, offset, size, cardinality); `None` where the storage type is null.
fn dv_at_row<'a>(getters: &Vec<Accessor<'a>>, row: usize) -> (r: Result<DvInfo, Error>)
    requires
        getters@.len() == 15,
    ensures
        r matches Ok(info) ==> dv_info_at(leaves(getters@), row as int, info),
        add_getter_kinds(getters@) ==> (r is Ok <==> (str_at(getters@[7]@, row as int) is Some ==> {
            &&& str_at(getters@[8]@, row as int) is Some
            &&& int_at(getters@[10]@, row as int) is Some
            &&& long_at(getters@[11]@, row as int) is Some
        })),
{
    proof {
        assert forall|k: int| 0 <= k < 15 implies #[trigger] leaves(getters@)[k] == getters@[k]@ by {}
    }
    let storage_type = match str_at_row(&getters[7], row) {
        Ok(Some(s)) => s.clone(),
        Ok(None) => {
            return Ok(DvInfo { deletion_vector: None });
        },
        Err(e) => {
            return Err(e);
        },
    };
    let path_or_inline_dv = match str_at_row(&getters[8], row) {
        Ok(Some(s)) => s.clone(),
        _ => {
            return Err(Error::MissingRequiredData(String::from_str("pathOrInlineDv")));
        },
    };
    let offset = match int_at_row(&getters[9], row) {
        Ok(x) => x,
        Err(e) => {
            return Err(e);
        },
    };
    let size_in_bytes = match int_at_row(&getters[10], row) {
        Ok(Some(x)) => x,
        _ => {
            return Err(Error::MissingRequiredData(String::from_str("sizeInBytes")));
        },
    };
    let cardinality = match long_at_row(&getters[11], row) {
        Ok(Some(x)) => x,
        _ => {
            return Err(Error::MissingRequiredData(String::from_str("cardinality")));
        },
    };
    Ok(
        DvInfo {
            deletion_vector: Some(
                DeletionVectorDescriptor {
                    storage_type,
                    path_or_inline_dv,
                    offset,
                    size_in_bytes,
                    cardinality,
                },
            ),
        },
    )
}

/// The scan file described by the `add` action at `row`.
fn visit_scan_row<'a>(getters: &Vec<Accessor<'a>>, row: usize) -> (r: Result<ScanFile, Error>)
    requires
        getters@.len() == 15,
    ensures
        r matches Ok(f) ==> scan_file_at(leaves(getters@), row as int, f),
        add_getter_kinds(getters@) && str_at(getters@[0]@, row as int) is Some ==> (r is Ok <==> add_complete(
            leaves(getters@),
            row as int,
        )),
{
    proof {
        assert(leaves(getters@)[0] == getters@[0]@);
        assert(leaves(getters@)[1] == getters@[1]@);
        assert(leaves(getters@)[2] == getters@[2]@);
        assert(leaves(getters@)[7] == getters@[7]@);
        assert(leaves(getters@)[8] == getters@[8]@);
        assert(leaves(getters@)[10] == getters@[10]@);
        assert(leaves(getters@)[11] == getters@[11]@);
    }
    let path = match str_at_row(&getters[0], row) {
        Ok(Some(s)) => s.clone(),
        _ => {
            return Err(Error::MissingRequiredData(String::from_str("path")));
        },
    };
    let size = match long_at_row(&getters[2], row) {
        Ok(Some(x)) => x,
        _ => {
            return Err(Error::MissingRequiredData(String::from_str("size")));
        },
    };
    let partition_values = match &getters[1] {
        Accessor::KeyValue(v) => if row < v.len() {
            match &v[row] {
                Some(entries) => partition_map(entries),
                None => {
                    return Err(Error::MissingRequiredData(String::from_str("partitionValues")));
                },
            }
        } else {
            return Err(Error::MissingRequiredData(String::from_str("partitionValues")));
        },
        _ => {
            return Err(Error::MissingRequiredData(String::from_str("partitionValues")));
        },
    };
    let dv_info = match dv_at_row(getters, row) {
        Ok(d) => d,
        Err(e) => {
            return Err(e);
        },
    };
    Ok(ScanFile { path, size, partition_values, dv_info })
}

/// The files described by the `add` actions of `data` at the rows that `selection` keeps, in
/// row order; a row past the end of `selection` is not kept.
pub fn visit_scan_files(data: &SimpleData, selection: &Vec<bool>) -> (r: Result<Vec<ScanFile>, Error>)
    ensures
        add_leaves(*data) is Err ==> r is Err,
        add_leaves(*data) matches Ok(l) ==> (r is Ok <==> scanned_rows_complete(
            l,
            selection@,
            data.num_rows as int,
        )),
        add_leaves(*data) matches Ok(l) ==> (r matches Ok(files) ==> files_of_rows(
            l,
            scanned_rows(l[0], selection@, data.num_rows as int),
            files@,
        )),
{
    let mut getters: Vec<Accessor> = Vec::new();
    match add_getters(data, &mut getters) {
        Err(e) => {
            return Err(e);
        },
        Ok(()) => {},
    }
    let ghost l = add_leaves(*data)->Ok_0;
    proof {
        lemma_add_leaves_fit(*data);
        assert forall|k: int| 0 <= k < 15 implies #[trigger] getters@[k]@ == l[k] by {
            assert(leaves(getters@)[k] == getters@[k]@);
        }
        let ts = add_leaf_types();
        assert(l[0] matches Some(d) ==> leaf_accepts(d, ts[0]));
        assert(l[2] matches Some(d) ==> leaf_accepts(d, ts[2]));
        assert(l[7] matches Some(d) ==> leaf_accepts(d, ts[7]));
        assert(l[8] matches Some(d) ==> leaf_accepts(d, ts[8]));
        assert(l[9] matches Some(d) ==> leaf_accepts(d, ts[9]));
        assert(l[10] matches Some(d) ==> leaf_accepts(d, ts[10]));
        assert(l[11] matches Some(d) ==> leaf_accepts(d, ts[11]));
        assert(add_getter_kinds(getters@));
        assert(leaves(getters@) == l);
    }
    let mut files: Vec<ScanFile> = Vec::new();
    let n = data.length();
    let mut row: usize = 0;
    proof {
        assert(scanned_rows(l[0], selection@, 0) =~= Seq::<int>::empty());
    }
    while row < n
        invariant
            row <= n,
            n == data.num_rows,
            getters@.len() == 15,
            add_getter_kinds(getters@),
            leaves(getters@) == l,
            add_leaves(*data) == Ok::<Seq<Option<ColumnData>>, crate::extract::ExtractError>(l),
            scanned_rows_complete(l, selection@, row as int),
            forall|k: int| 0 <= k < 15 ==> #[trigger] getters@[k]@ == l[k],
            files_of_rows(l, scanned_rows(l[0], selection@, row as int), files@),
        decreases n - row,
    {
        let ghost rows = scanned_rows(l[0], selection@, row as int);
        let ghost before = files@;
        let scanned = row < selection.len() && selection[row] && match str_at_row(&getters[0], row) {
            Ok(Some(_)) => true,
            _ => false,
        };
        proof {
            assert(scanned == row_is_scanned(l[0], selection@, row as int));
        }
        if scanned {
            match visit_scan_row(&getters, row) {
                Ok(f) => {
                    files.push(f);
                    proof {
                        let rows2 = scanned_rows(l[0], selection@, row + 1);
                        assert(rows2 == rows.push(row as int));
                        lemma_files_of_rows_push(l, rows, before, row as int, files@.last());
                        assert(files@ == before.push(files@.last()));
                    }
                },
                Err(e) => {
                    proof {
                        assert(row_is_scanned(l[0], selection@, row as int));
                        assert(!add_complete(l, row as int));
                        assert(!scanned_rows_complete(l, selection@, data.num_rows as int));
                    }
                    return Err(e);
                },
            }
        } else {
            proof {
                assert(scanned_rows(l[0], selection@, row + 1) == rows);
            }
        }
        row = row + 1;
    }
    proof {
        let rows = scanned_rows(l[0], selection@, n as int);
        assert(files_of_rows(l, rows, files@));
    }
    Ok(files)
}

} // verus!
