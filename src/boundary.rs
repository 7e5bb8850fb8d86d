//! The lifecycle of the objects a foreign caller holds: each is a numbered handle in a table.
//! Creating an object hands its handle to the caller; a borrowing call leaves the object in
//! place; a consuming call takes it out, and a freed handle is dead.
use vstd::prelude::*;

use crate::error::Error;
use crate::handle::HandleTable;
use crate::scan::{batches_scannable, files_of_batches, scanned_count, GlobalScanState, KernelScanDataIterator, KernelScanFileIterator, Scan, ScanBuilder, Snapshot};

verus! {

/// The live objects of a caller, by kind.
#[derive(Debug)]
pub struct KernelHandles {
    pub scans: HandleTable<Scan>,
    pub states: HandleTable<GlobalScanState>,
    pub data_iters: HandleTable<KernelScanDataIterator>,
    pub file_iters: HandleTable<KernelScanFileIterator>,
}

impl KernelHandles {
    pub fn new() -> (r: KernelHandles)
        ensures
            r.scans@ == Map::<int, Scan>::empty(),
            r.states@ == Map::<int, GlobalScanState>::empty(),
            r.data_iters@ == Map::<int, KernelScanDataIterator>::empty(),
            r.file_iters@ == Map::<int, KernelScanFileIterator>::empty(),
    {
        KernelHandles {
            scans: HandleTable::new(),
            states: HandleTable::new(),
            data_iters: HandleTable::new(),
            file_iters: HandleTable::new(),
        }
    }
}

/// A new scan over `snapshot`, with `predicate` if one is given; its handle goes to the caller.
pub fn scan(handles: &mut KernelHandles, snapshot: Snapshot, predicate: Option<String>) -> (r:
    Result<usize, Error>)
    ensures
        old(handles).scans.issued() < usize::MAX <==> r is Ok,
        r is Err ==> (r matches Err(Error::HandlesExhausted)
            && final(handles).scans@ == old(handles).scans@),
        r matches Ok(h) ==> (!old(handles).scans@.contains_key(h as int)
            && final(handles).scans@.dom() == old(handles).scans@.dom().insert(h as int)
            && final(handles).scans@[h as int].snapshot_spec() == snapshot
            && final(handles).scans@[h as int].predicate_spec()
            == predicate),
        final(handles).states@ == old(handles).states@,
        final(handles).data_iters@ == old(handles).data_iters@,
        final(handles).file_iters@ == old(handles).file_iters@,
{
    if handles.scans.issued_count() == usize::MAX {
        return Err(Error::HandlesExhausted);
    }
    let mut builder = ScanBuilder::new(snapshot);
    match predicate {
        Some(p) => {
            builder = builder.with_predicate(p);
        },
        None => {},
    }
    let h = handles.scans.into_handle(builder.build());
    Ok(h)
}

/// The global state of scan `scan_handle`, under a new handle; the scan stays alive.
pub fn get_global_scan_state(handles: &mut KernelHandles, scan_handle: usize) -> (r: Result<
    usize,
    Error,
>)
    ensures
        !old(handles).scans@.contains_key(scan_handle as int) ==> (r matches Err(Error::InvalidHandle(h))
            && h == scan_handle),
        old(handles).scans@.contains_key(scan_handle as int) ==> (old(handles).states.issued()
            < usize::MAX <==> r is Ok),
        r matches Ok(h) ==> (!old(handles).states@.contains_key(h as int)
            && final(handles).states@.dom() == old(handles).states@.dom().insert(h as int)
            && final(handles).states@[h as int].table_root@ == old(handles).scans@[scan_handle as int].snapshot_spec().table_root@
            && final(handles).states@[h as int].partition_columns@.map_values(|c: String| c@)
            == old(handles).scans@[scan_handle as int].snapshot_spec().partition_columns@.map_values(
            |c: String| c@,
        )),
        r is Err ==> final(handles).states@ == old(handles).states@,
        final(handles).scans@ == old(handles).scans@,
        final(handles).data_iters@ == old(handles).data_iters@,
        final(handles).file_iters@ == old(handles).file_iters@,
{
    let state = match handles.scans.borrow(scan_handle) {
        Some(s) => s.global_scan_state(),
        None => {
            return Err(Error::InvalidHandle(scan_handle));
        },
    };
    if handles.states.issued_count() == usize::MAX {
        return Err(Error::HandlesExhausted);
    }
    Ok(handles.states.into_handle(state))
}

/// Frees global state `state`.
pub fn drop_global_scan_state(handles: &mut KernelHandles, state: usize) -> (r: bool)
    ensures
        r == old(handles).states@.contains_key(state as int),
        final(handles).states@ == old(handles).states@.remove(state as int),
        final(handles).scans@ == old(handles).scans@,
        final(handles).data_iters@ == old(handles).data_iters@,
        final(handles).file_iters@ == old(handles).file_iters@,
{
    let r = handles.states.drop_handle(state);
    proof {
        if r is None {
            assert(old(handles).states@.remove(state as int) =~= old(handles).states@);
        }
    }
    r.is_some()
}

/// Consumes scan `scan_handle` into an iterator over its batches, under a new handle.
pub fn kernel_scan_data_init(handles: &mut KernelHandles, scan_handle: usize) -> (r: Result<
    usize,
    Error,
>)
    ensures
        !old(handles).scans@.contains_key(scan_handle as int) ==> (r matches Err(Error::InvalidHandle(h))
            && h == scan_handle),
        old(handles).scans@.contains_key(scan_handle as int) ==> (old(handles).data_iters.issued()
            < usize::MAX <==> r is Ok),
        r matches Ok(h) ==> (!old(handles).data_iters@.contains_key(h as int)
            && final(handles).data_iters@.dom() == old(handles).data_iters@.dom().insert(h as int)
            && final(handles).data_iters@[h as int].wf()
            && final(handles).data_iters@[h as int].remaining() == old(handles).scans@[scan_handle as int].snapshot_spec().scan_batches@
            && final(handles).scans@ == old(handles).scans@.remove(scan_handle as int)),
        r is Err ==> final(handles).scans@ == old(handles).scans@ && final(handles).data_iters@
            == old(handles).data_iters@,
        final(handles).states@ == old(handles).states@,
        final(handles).file_iters@ == old(handles).file_iters@,
{
    if !handles.scans.is_live(scan_handle) {
        return Err(Error::InvalidHandle(scan_handle));
    }
    if handles.data_iters.issued_count() == usize::MAX {
        return Err(Error::HandlesExhausted);
    }
    match handles.scans.drop_handle(scan_handle) {
        Some(s) => Ok(handles.data_iters.into_handle(s.scan_data())),
        None => Err(Error::InvalidHandle(scan_handle)),
    }
}

/// Frees the batch iterator `iter`.
pub fn kernel_scan_data_free(handles: &mut KernelHandles, iter: usize) -> (r: bool)
    ensures
        r == old(handles).data_iters@.contains_key(iter as int),
        final(handles).data_iters@ == old(handles).data_iters@.remove(iter as int),
        final(handles).scans@ == old(handles).scans@,
        final(handles).states@ == old(handles).states@,
        final(handles).file_iters@ == old(handles).file_iters@,
{
    let r = handles.data_iters.drop_handle(iter);
    proof {
        if r is None {
            assert(old(handles).data_iters@.remove(iter as int) =~= old(handles).data_iters@);
        }
    }
    r.is_some()
}

/// Consumes scan `scan_handle` into an iterator over the files it reads, under a new handle.
pub fn kernel_scan_files_init(handles: &mut KernelHandles, scan_handle: usize) -> (r: Result<
    usize,
    Error,
>)
    ensures
        !old(handles).scans@.contains_key(scan_handle as int) ==> (r matches Err(Error::InvalidHandle(h))
            && h == scan_handle),
        r matches Ok(h) ==> (!old(handles).file_iters@.contains_key(h as int)
            && final(handles).file_iters@.dom() == old(handles).file_iters@.dom().insert(h as int)
            && final(handles).file_iters@[h as int].wf()
            && final(handles).scans@ == old(handles).scans@.remove(scan_handle as int)),
        old(handles).scans@.contains_key(scan_handle as int) && old(handles).file_iters.issued()
            < usize::MAX && batches_scannable(
            old(handles).scans@[scan_handle as int].snapshot_spec().scan_batches@,
            old(handles).scans@[scan_handle as int].snapshot_spec().scan_batches@.len() as int,
        ) ==> r is Ok,
        final(handles).states@ == old(handles).states@,
        final(handles).data_iters@ == old(handles).data_iters@,
        r matches Ok(h) ==> final(handles).file_iters@[h as int].remaining().len()
            == scanned_count(
            old(handles).scans@[scan_handle as int].snapshot_spec().scan_batches@,
            old(handles).scans@[scan_handle as int].snapshot_spec().scan_batches@.len() as int,
        ),
        r matches Ok(h) ==> files_of_batches(
            old(handles).scans@[scan_handle as int].snapshot_spec().scan_batches@,
            old(handles).scans@[scan_handle as int].snapshot_spec().scan_batches@.len() as int,
            final(handles).file_iters@[h as int].remaining(),
        ),
{
    if !handles.scans.is_live(scan_handle) {
        return Err(Error::InvalidHandle(scan_handle));
    }
    if handles.file_iters.issued_count() == usize::MAX {
        return Err(Error::HandlesExhausted);
    }
    match handles.scans.drop_handle(scan_handle) {
        Some(s) => match s.files() {
            Ok(files) => Ok(handles.file_iters.into_handle(files)),
            Err(e) => Err(e),
        },
        None => Err(Error::InvalidHandle(scan_handle)),
    }
}

/// Frees the file iterator `iter`.
pub fn kernel_scan_files_free(handles: &mut KernelHandles, iter: usize) -> (r: bool)
    ensures
        r == old(handles).file_iters@.contains_key(iter as int),
        final(handles).file_iters@ == old(handles).file_iters@.remove(iter as int),
        final(handles).scans@ == old(handles).scans@,
        final(handles).states@ == old(handles).states@,
        final(handles).data_iters@ == old(handles).data_iters@,
{
    let r = handles.file_iters.drop_handle(iter);
    proof {
        if r is None {
            assert(old(handles).file_iters@.remove(iter as int) =~= old(handles).file_iters@);
        }
    }
    r.is_some()
}

} // verus!
