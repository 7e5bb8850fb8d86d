use delta_schema::boundary::{
    drop_global_scan_state, get_global_scan_state, kernel_scan_data_free, kernel_scan_data_init,
    kernel_scan_files_free, kernel_scan_files_init, scan, KernelHandles,
};
use delta_schema::columnar::{Column, ColumnData, SimpleData};
use delta_schema::dv::{
    apply_deletion_vector, deleted_rows_bitmap, DeletionVectorDescriptor, DvInfo, DvLocation,
};
use delta_schema::error::Error;
use delta_schema::handle::HandleTable;
use delta_schema::scan::{
    get_from_map, partition_map, visit_scan_files, CStringMap, ScanBuilder, Snapshot,
};

fn col(name: &str, data: ColumnData) -> Column {
    Column { name: name.to_string(), data }
}

fn s(v: &str) -> Option<String> {
    Some(v.to_string())
}

fn descriptor(storage_type: &str, path: &str, cardinality: i64) -> DeletionVectorDescriptor {
    DeletionVectorDescriptor {
        storage_type: storage_type.to_string(),
        path_or_inline_dv: path.to_string(),
        offset: Some(1),
        size_in_bytes: 36,
        cardinality,
    }
}

/// A batch of `add` actions: one row per path, `None` for a row without an `add`.
fn add_batch(paths: Vec<Option<String>>, with_dv: bool) -> SimpleData {
    let n = paths.len();
    let sizes = (0..n).map(|i| Some(100 + i as i64)).collect();
    let dv_type = (0..n).map(|_| if with_dv { s("u") } else { None }).collect();
    let add = ColumnData::Struct(vec![
        col("path", ColumnData::Utf8(paths)),
        col(
            "partitionValues",
            ColumnData::KeyValue(
                (0..n).map(|_| Some(vec![("c1".to_string(), s("4")), ("c2".to_string(), None)])).collect(),
            ),
        ),
        col("size", ColumnData::Int64(sizes)),
        col("modificationTime", ColumnData::Int64((0..n).map(|_| Some(0)).collect())),
        col("dataChange", ColumnData::Boolean((0..n).map(|_| Some(true)).collect())),
        col(
            "deletionVector",
            ColumnData::Struct(vec![
                col("storageType", ColumnData::Utf8(dv_type)),
                col("pathOrInlineDv", ColumnData::Utf8((0..n).map(|_| s("vBn[lx{q8@P<9BNH/isA")).collect())),
                col("offset", ColumnData::Int32((0..n).map(|_| Some(1)).collect())),
                col("sizeInBytes", ColumnData::Int32((0..n).map(|_| Some(36)).collect())),
                col("cardinality", ColumnData::Int64((0..n).map(|_| Some(2)).collect())),
            ]),
        ),
    ]);
    SimpleData::new(vec![col("add", add)], n)
}

fn snapshot(batches: Vec<(SimpleData, Vec<bool>)>) -> Snapshot {
    Snapshot {
        table_root: "file:///tmp/table/".to_string(),
        version: 3,
        partition_columns: vec!["c1".to_string()],
        scan_batches: batches,
    }
}

#[test]
fn deletion_vector_with_matching_cardinality() {
    let bits = deleted_rows_bitmap(&vec![0, 5, 9], 3).unwrap();
    assert_eq!(bits.len(), 10);
    assert_eq!(bits.iter().filter(|b| **b).count(), 3);
    assert!(bits[0] && bits[5] && bits[9] && !bits[1]);
}

#[test]
fn deletion_vector_with_wrong_cardinality_is_malformed() {
    match deleted_rows_bitmap(&vec![0, 5, 9], 4) {
        Err(Error::MalformedDeletionVector { cardinality, deleted }) => {
            assert_eq!(cardinality, 4);
            assert_eq!(deleted, 3);
        }
        other => panic!("unexpected {:?}", other),
    }
}

#[test]
fn deletion_vector_counts_repeated_rows_once() {
    assert!(deleted_rows_bitmap(&vec![2, 2], 1).is_ok());
    assert!(deleted_rows_bitmap(&vec![], 0).unwrap().is_empty());
}

#[test]
fn no_deletion_vector_means_all_live() {
    let info = DvInfo { deletion_vector: None };
    assert!(!info.has_vector());
    assert_eq!(info.get_selection_vector(&vec![1, 2]).unwrap(), None);
    let sel = vec![true, false, true];
    assert_eq!(apply_deletion_vector(&sel, &None), sel);
}

#[test]
fn deletion_vector_composes_with_selection() {
    let info = DvInfo { deletion_vector: Some(descriptor("u", "ab", 2)) };
    let bits = info.get_selection_vector(&vec![0, 2]).unwrap();
    assert_eq!(bits, Some(vec![true, false, true]));
    let live = apply_deletion_vector(&vec![true, true, true, false], &bits);
    assert_eq!(live, vec![false, true, false, false]);
}

#[test]
fn deletion_vector_locations() {
    match descriptor("i", "wi5b=000010000siXQKl0rr91000f55c8Xg0@@D72lkbi5=-{L", 1).location() {
        Ok(DvLocation::Inline(p)) => assert!(p.starts_with("wi5b")),
        other => panic!("unexpected {:?}", other),
    }
    match descriptor("u", "ab^-aqEH.-t@S}K{vb[*k^", 1).location() {
        Ok(DvLocation::Relative { prefix, encoded_uuid }) => {
            assert_eq!(prefix, "ab");
            assert_eq!(encoded_uuid, "^-aqEH.-t@S}K{vb[*k^");
        }
        other => panic!("unexpected {:?}", other),
    }
    assert!(matches!(
        descriptor("u", "short", 1).location(),
        Err(Error::MalformedDeletionVectorPath(_))
    ));
    match descriptor("p", "s3://bucket/table/dv.bin", 1).location() {
        Ok(DvLocation::Absolute(u)) => assert_eq!(u.scheme(), "s3"),
        other => panic!("unexpected {:?}", other),
    }
    assert!(matches!(descriptor("p", "not a url", 1).location(), Err(Error::InvalidUrl(_))));
    assert!(matches!(descriptor("x", "a", 1).location(), Err(Error::UnknownStorageType(_))));
}

#[test]
fn partition_map_probing() {
    let mut m = CStringMap::new();
    m.insert("a".to_string(), "1".to_string());
    m.insert("b".to_string(), "2".to_string());
    m.insert("a".to_string(), "3".to_string());
    assert_eq!(m.len(), 3);
    assert_eq!(get_from_map(&m, "a"), Some("3".to_string()));
    assert_eq!(get_from_map(&m, "b"), Some("2".to_string()));
    assert_eq!(get_from_map(&m, "c"), None);
    let p = partition_map(&vec![("c1".to_string(), s("4")), ("c2".to_string(), None)]);
    assert_eq!(get_from_map(&p, "c1"), Some("4".to_string()));
    assert_eq!(get_from_map(&p, "c2"), None);
}

#[test]
fn visit_scan_files_respects_selection() {
    let data = add_batch(vec![s("a.parquet"), None, s("b.parquet"), s("c.parquet")], false);
    let files = visit_scan_files(&data, &vec![true, true, true, false]).unwrap();
    let paths: Vec<&str> = files.iter().map(|f| f.path.as_str()).collect();
    assert_eq!(paths, vec!["a.parquet", "b.parquet"]);
    assert_eq!(files[1].size, 102);
    assert_eq!(get_from_map(&files[0].partition_values, "c1"), Some("4".to_string()));
    assert!(!files[0].dv_info.has_vector());
}

#[test]
fn visit_scan_files_reads_deletion_vectors() {
    let data = add_batch(vec![s("a.parquet")], true);
    let files = visit_scan_files(&data, &vec![true]).unwrap();
    let dv = files[0].dv_info.deletion_vector.as_ref().unwrap();
    assert_eq!(dv.storage_type, "u");
    assert_eq!(dv.cardinality, 2);
    assert_eq!(dv.offset, Some(1));
}

#[test]
fn scan_files_in_log_order() {
    let b1 = add_batch(vec![s("a.parquet"), s("b.parquet")], false);
    let b2 = add_batch(vec![s("c.parquet")], false);
    let scan = ScanBuilder::new(snapshot(vec![(b1, vec![true, true]), (b2, vec![true])]))
        .with_predicate("c1 > 3".to_string())
        .build();
    assert_eq!(scan.predicate(), &Some("c1 > 3".to_string()));
    let state = scan.global_scan_state();
    assert_eq!(state.table_root, "file:///tmp/table/");
    assert_eq!(state.partition_columns, vec!["c1".to_string()]);
    let mut it = scan.files().unwrap();
    let mut seen = vec![];
    while let Some(f) = it.kernel_scan_files_next() {
        seen.push(f.path.clone());
    }
    assert_eq!(seen, vec!["a.parquet", "b.parquet", "c.parquet"]);
    assert!(it.kernel_scan_files_next().is_none());
}

#[test]
fn scan_files_without_adds_is_exhausted() {
    let scan = ScanBuilder::new(snapshot(vec![])).build();
    let mut it = scan.files().unwrap();
    assert!(it.kernel_scan_files_next().is_none());
    assert!(it.kernel_scan_files_next().is_none());
    let none_selected = add_batch(vec![s("a.parquet")], false);
    let scan = ScanBuilder::new(snapshot(vec![(none_selected, vec![false])])).build();
    let mut it = scan.files().unwrap();
    assert!(it.kernel_scan_files_next().is_none());
}

#[test]
fn scan_data_yields_batches_once() {
    let b1 = add_batch(vec![s("a.parquet")], false);
    let scan = ScanBuilder::new(snapshot(vec![(b1, vec![true])])).build();
    let mut it = scan.scan_data();
    let first = it.kernel_scan_data_next().unwrap();
    assert_eq!(first.0.length(), 1);
    assert_eq!(first.1, vec![true]);
    assert!(it.kernel_scan_data_next().is_none());
}

#[test]
fn handles_borrow_and_free() {
    let mut t: HandleTable<String> = HandleTable::new();
    let a = t.into_handle("a".to_string());
    let b = t.into_handle("b".to_string());
    assert_ne!(a, b);
    assert_eq!(t.borrow(a), Some(&"a".to_string()));
    assert_eq!(t.borrow(a), Some(&"a".to_string()));
    assert_eq!(t.drop_handle(a), Some("a".to_string()));
    assert_eq!(t.borrow(a), None);
    assert_eq!(t.drop_handle(a), None);
    assert_eq!(t.borrow(b), Some(&"b".to_string()));
    let c = t.into_handle("c".to_string());
    assert_ne!(c, a);
}

#[test]
fn boundary_handle_lifecycle() {
    let mut h = KernelHandles::new();
    let b1 = add_batch(vec![s("a.parquet")], false);
    let sc = scan(&mut h, snapshot(vec![(b1, vec![true])]), Some("p".to_string())).unwrap();
    let st = get_global_scan_state(&mut h, sc).unwrap();
    assert_eq!(h.states.borrow(st).unwrap().table_root, "file:///tmp/table/");
    assert!(drop_global_scan_state(&mut h, st));
    assert!(!drop_global_scan_state(&mut h, st));
    let files = kernel_scan_files_init(&mut h, sc).unwrap();
    assert!(matches!(kernel_scan_files_init(&mut h, sc), Err(Error::InvalidHandle(_))));
    assert!(matches!(get_global_scan_state(&mut h, sc), Err(Error::InvalidHandle(_))));
    assert!(h.file_iters.is_live(files));
    assert!(kernel_scan_files_free(&mut h, files));
    let sc2 = scan(&mut h, snapshot(vec![]), None).unwrap();
    let data = kernel_scan_data_init(&mut h, sc2).unwrap();
    assert!(kernel_scan_data_free(&mut h, data));
    assert!(!kernel_scan_data_free(&mut h, data));
}

#[test]
fn deletion_vector_mismatch_with_descriptor_is_error() {
    let info = DvInfo { deletion_vector: Some(descriptor("u", "ab", 3)) };
    assert!(matches!(
        info.get_selection_vector(&vec![0, 1]),
        Err(Error::MalformedDeletionVector { cardinality: 3, deleted: 2 })
    ));
}

#[test]
fn scan_files_carry_partition_values_and_dv() {
    let b = add_batch(vec![s("a.parquet"), s("b.parquet")], true);
    let mut h = KernelHandles::new();
    let sc = scan(&mut h, snapshot(vec![(b, vec![false, true])]), None).unwrap();
    let files = kernel_scan_files_init(&mut h, sc).unwrap();
    let mut it = h.file_iters.drop_handle(files).unwrap();
    let f = it.kernel_scan_files_next().unwrap();
    assert_eq!(f.path, "b.parquet");
    assert_eq!(f.size, 101);
    assert_eq!(get_from_map(&f.partition_values, "c1"), Some("4".to_string()));
    assert_eq!(get_from_map(&f.partition_values, "c2"), None);
    let dv = f.dv_info.deletion_vector.as_ref().unwrap();
    assert_eq!(dv.path_or_inline_dv, "vBn[lx{q8@P<9BNH/isA");
    assert_eq!(dv.size_in_bytes, 36);
    assert!(it.kernel_scan_files_next().is_none());
}

#[test]
fn boundary_files_of_snapshot_without_adds_is_empty() {
    let mut h = KernelHandles::new();
    let sc = scan(&mut h, snapshot(vec![]), None).unwrap();
    let files = kernel_scan_files_init(&mut h, sc).unwrap();
    let mut it = h.file_iters.drop_handle(files).unwrap();
    assert!(it.kernel_scan_files_next().is_none());
}

#[test]
fn table_root_url_parses_or_fails() {
    let scan = ScanBuilder::new(snapshot(vec![])).build();
    let state = scan.global_scan_state();
    assert_eq!(state.table_root_url().unwrap().scheme(), "file");
    let bad = delta_schema::scan::GlobalScanState {
        table_root: "no root".to_string(),
        partition_columns: vec![],
    };
    assert!(matches!(bad.table_root_url(), Err(Error::InvalidUrl(_))));
}
