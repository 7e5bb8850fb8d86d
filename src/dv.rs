//! Deletion vectors: where a file's deleted rows are stored, and the per-row vector they
//! resolve to.
use vstd::prelude::*;
use vstd::string::StrSliceExecFns;

use crate::error::Error;

verus! {

#[verifier::external_type_specification]
#[verifier::external_body]
pub struct ExUrl(url::Url);

#[verifier::external_type_specification]
#[verifier::external_body]
pub struct ExParseError(url::ParseError);

/// `s` is a valid absolute URL.
pub uninterp spec fn url_parses(s: Seq<char>) -> bool;

/// Relies on `url::Url::parse`: it accepts exactly the strings that are absolute URLs, a
/// property of the string alone.
#[verifier::external_body]
pub(crate) fn parse_url(s: &str) -> (r: Result<url::Url, url::ParseError>)
    ensures
        r is Ok <==> url_parses(s@),
{
    url::Url::parse(s)
}

/// The length of the encoded identifier that ends a relative deletion vector path.
pub const ENCODED_UUID_LEN: usize = 20;

/// Where a deletion vector's content lies.
#[derive(Debug)]
pub enum DvLocation {
    /// The content itself, encoded, held in the descriptor.
    Inline(String),
    /// A file under the table root, named by an optional directory prefix and an encoded
    /// identifier.
    Relative { prefix: String, encoded_uuid: String },
    /// A file at an absolute URL.
    Absolute(url::Url),
}

/// A deletion vector as a log action describes it.
#[derive(Debug)]
pub struct DeletionVectorDescriptor {
    pub storage_type: String,
    pub path_or_inline_dv: String,
    pub offset: Option<i32>,
    pub size_in_bytes: i32,
    /// The number of deleted rows.
    pub cardinality: i64,
}

impl DeletionVectorDescriptor {
    /// Where the vector's content lies: storage type `i` holds it inline, `u` names a file
    /// relative to the table root, `p` an absolute path.
    pub fn location(&self) -> (r: Result<DvLocation, Error>)
        ensures
            self.storage_type@ == "i"@ ==> (r matches Ok(DvLocation::Inline(s)) && s@
                == self.path_or_inline_dv@),
            self.storage_type@ == "u"@ && self.path_or_inline_dv@.len() >= 20 ==> (r matches Ok(
                DvLocation::Relative { prefix, encoded_uuid },
            ) && prefix@ + encoded_uuid@ == self.path_or_inline_dv@ && encoded_uuid@.len() == 20),
            self.storage_type@ == "u"@ && self.path_or_inline_dv@.len() < 20 ==> (r matches Err(
                Error::MalformedDeletionVectorPath(p),
            ) && p@ == self.path_or_inline_dv@),
            self.storage_type@ == "p"@ ==> (url_parses(self.path_or_inline_dv@) <==> r matches Ok(
                DvLocation::Absolute(_),
            )),
            self.storage_type@ == "p"@ && !url_parses(self.path_or_inline_dv@) ==> (r matches Err(
                Error::InvalidUrl(p),
            ) && p@ == self.path_or_inline_dv@),
            !(self.storage_type@ == "i"@ || self.storage_type@ == "u"@ || self.storage_type@
                == "p"@) ==> (r matches Err(Error::UnknownStorageType(t)) && t@
                == self.storage_type@),
    {
        let path = &self.path_or_inline_dv;
        proof {
            reveal_strlit("i");
            reveal_strlit("u");
            reveal_strlit("p");
            assert("i"@[0] == 'i' && "u"@[0] == 'u' && "p"@[0] == 'p');
            assert("i"@ != "u"@ && "i"@ != "p"@ && "u"@ != "p"@);
        }
        if self.storage_type == String::from_str("i") {
            Ok(DvLocation::Inline(path.clone()))
        } else if self.storage_type == String::from_str("u") {
            let n = path.as_str().unicode_len();
            if n < ENCODED_UUID_LEN {
                return Err(Error::MalformedDeletionVectorPath(path.clone()));
            }
            let prefix = path.as_str().substring_char(0, n - ENCODED_UUID_LEN);
            let encoded = path.as_str().substring_char(n - ENCODED_UUID_LEN, n);
            proof {
                assert(prefix@ + encoded@ =~= path@);
            }
            Ok(
                DvLocation::Relative {
                    prefix: String::from_str(prefix),
                    encoded_uuid: String::from_str(encoded),
                },
            )
        } else if self.storage_type == String::from_str("p") {
            match parse_url(path.as_str()) {
                Ok(u) => Ok(DvLocation::Absolute(u)),
                Err(_) => Err(Error::InvalidUrl(path.clone())),
            }
        } else {
            Err(Error::UnknownStorageType(self.storage_type.clone()))
        }
    }
}

/// One more than the largest row index in `deleted`; 0 when it is empty.
pub open spec fn row_bound(deleted: Seq<u64>) -> int
    decreases deleted.len(),
{
    if deleted.len() == 0 {
        0
    } else {
        let b = row_bound(deleted.drop_last());
        if deleted.last() + 1 > b {
            deleted.last() + 1
        } else {
            b
        }
    }
}

/// The deletion bitmap of the row indices `deleted`: one entry per row up to the largest
/// index, set where the row is deleted.
pub open spec fn deleted_bits(deleted: Seq<u64>) -> Seq<bool> {
    Seq::new(row_bound(deleted) as nat, |i: int| deleted.contains(i as u64))
}

/// The number of set entries of `v`.
pub open spec fn count_set(v: Seq<bool>) -> nat
    decreases v.len(),
{
    if v.len() == 0 {
        0
    } else {
        count_set(v.drop_last()) + if v.last() {
            1nat
        } else {
            0nat
        }
    }
}

proof fn lemma_row_bound(deleted: Seq<u64>)
    ensures
        forall|i: int| 0 <= i < deleted.len() ==> #[trigger] deleted[i] < row_bound(deleted),
        row_bound(deleted) == 0 || exists|i: int|
            0 <= i < deleted.len() && row_bound(deleted) == deleted[i] + 1,
    decreases deleted.len(),
{
    if deleted.len() > 0 {
        lemma_row_bound(deleted.drop_last());
        let d = deleted.drop_last();
        assert forall|i: int| 0 <= i < deleted.len() implies #[trigger] deleted[i] < row_bound(
            deleted,
        ) by {
            if i < deleted.len() - 1 {
                assert(deleted[i] == d[i]);
            }
        }
        if row_bound(deleted) != deleted.last() + 1 {
            let i = choose|i: int| 0 <= i < d.len() && row_bound(d) == d[i] + 1;
            assert(deleted[i] == d[i]);
        }
    }
}

proof fn lemma_count_set_push(v: Seq<bool>, b: bool)
    ensures
        count_set(v.push(b)) == count_set(v) + if b {
            1nat
        } else {
            0nat
        },
{
    assert(v.push(b).drop_last() =~= v);
}

proof fn lemma_count_set_update(v: Seq<bool>, i: int)
    requires
        0 <= i < v.len(),
        !v[i],
    ensures
        count_set(v.update(i, true)) == count_set(v) + 1,
    decreases v.len(),
{
    let w = v.update(i, true);
    if i < v.len() - 1 {
        lemma_count_set_update(v.drop_last(), i);
        assert(w.drop_last() =~= v.drop_last().update(i, true));
    } else {
        assert(w.drop_last() =~= v.drop_last());
    }
}

/// The deletion bitmap of the row indices `deleted`, decoded from a deletion vector, checked
/// against the vector's declared `cardinality`: the number of rows it deletes must equal it.
pub fn deleted_rows_bitmap(deleted: &Vec<u64>, cardinality: i64) -> (r: Result<Vec<bool>, Error>)
    requires
        forall|i: int| 0 <= i < deleted@.len() ==> #[trigger] deleted@[i] < usize::MAX,
    ensures
        count_set(deleted_bits(deleted@)) == cardinality ==> (r matches Ok(v) && v@ == deleted_bits(
            deleted@,
        )),
        r matches Ok(v) ==> count_set(v@) == cardinality,
        count_set(deleted_bits(deleted@)) != cardinality ==> (r matches Err(
            Error::MalformedDeletionVector { cardinality: c, deleted: n },
        ) && c == cardinality && n == count_set(deleted_bits(deleted@))),
{
    let mut bound: usize = 0;
    let mut i: usize = 0;
    while i < deleted.len()
        invariant
            i <= deleted@.len(),
            forall|k: int| 0 <= k < deleted@.len() ==> #[trigger] deleted@[k] < usize::MAX,
            bound as int == row_bound(deleted@.subrange(0, i as int)),
        decreases deleted@.len() - i,
    {
        proof {
            assert(deleted@.subrange(0, i + 1).drop_last() =~= deleted@.subrange(0, i as int));
        }
        let d = deleted[i] as usize;
        if d + 1 > bound {
            bound = d + 1;
        }
        i = i + 1;
    }
    proof {
        assert(deleted@.subrange(0, deleted@.len() as int) =~= deleted@);
        lemma_row_bound(deleted@);
    }
    let mut bits: Vec<bool> = Vec::new();
    let mut j: usize = 0;
    while j < bound
        invariant
            j <= bound,
            bits@.len() == j,
            forall|k: int| 0 <= k < j ==> !#[trigger] bits@[k],
            count_set(bits@) == 0,
        decreases bound - j,
    {
        proof {
            lemma_count_set_push(bits@, false);
        }
        bits.push(false);
        j = j + 1;
    }
    let mut count: u64 = 0;
    i = 0;
    while i < deleted.len()
        invariant
            i <= deleted@.len(),
            bound as int == row_bound(deleted@),
            forall|k: int| 0 <= k < deleted@.len() ==> #[trigger] deleted@[k] < bound,
            bits@.len() == bound,
            forall|k: int|
                0 <= k < bound ==> #[trigger] bits@[k] == deleted@.subrange(0, i as int).contains(
                    k as u64,
                ),
            count as nat == count_set(bits@),
            count <= i,
        decreases deleted@.len() - i,
    {
        let d = deleted[i] as usize;
        let ghost before = bits@;
        proof {
            assert forall|k: int| 0 <= k < bound implies (#[trigger] deleted@.subrange(0, i + 1).contains(
                k as u64,
            ) == (deleted@.subrange(0, i as int).contains(k as u64) || k == d)) by {
                if deleted@.subrange(0, i + 1).contains(k as u64) {
                    let w = choose|w: int|
                        0 <= w < i + 1 && #[trigger] deleted@.subrange(0, i + 1)[w] == k as u64;
                    if w < i {
                        assert(deleted@.subrange(0, i as int)[w] == k as u64);
                    }
                }
                if deleted@.subrange(0, i as int).contains(k as u64) {
                    let w = choose|w: int|
                        0 <= w < i && #[trigger] deleted@.subrange(0, i as int)[w] == k as u64;
                    assert(deleted@.subrange(0, i + 1)[w] == k as u64);
                }
                if k == d {
                    assert(deleted@.subrange(0, i + 1)[i as int] == k as u64);
                }
            }
        }
        if !bits[d] {
            proof {
                lemma_count_set_update(bits@, d as int);
            }
            bits.set(d, true);
            count = count + 1;
        }
        i = i + 1;
    }
    proof {
        assert(deleted@.subrange(0, deleted@.len() as int) =~= deleted@);
        assert(bits@ =~= deleted_bits(deleted@));
    }
    if cardinality < 0 || count != cardinality as u64 {
        return Err(Error::MalformedDeletionVector { cardinality, deleted: count });
    }
    Ok(bits)
}

/// A file's deletion vector information: `None` when no row of the file is deleted.
#[derive(Debug)]
pub struct DvInfo {
    pub deletion_vector: Option<DeletionVectorDescriptor>,
}

impl DvInfo {
    /// Whether the file has a deletion vector.
    pub fn has_vector(&self) -> (r: bool)
        ensures
            r == self.deletion_vector is Some,
    {
        self.deletion_vector.is_some()
    }

    /// The deletion bitmap of the file: `None` when it has no deletion vector (every row is
    /// live), else the bitmap of `deleted`, the row indices the backend decoded from the
    /// vector, checked against its cardinality.
    pub fn get_selection_vector(&self, deleted: &Vec<u64>) -> (r: Result<Option<Vec<bool>>, Error>)
        requires
            forall|i: int| 0 <= i < deleted@.len() ==> #[trigger] deleted@[i] < usize::MAX,
        ensures
            self.deletion_vector is None ==> r matches Ok(None),
            self.deletion_vector matches Some(d) ==> (count_set(deleted_bits(deleted@))
                == d.cardinality <==> r matches Ok(Some(_))),
            self.deletion_vector matches Some(d) ==> (r matches Ok(Some(v)) ==> v@ == deleted_bits(
                deleted@,
            )),
            self.deletion_vector matches Some(d) ==> (r is Err ==> r matches Err(
                Error::MalformedDeletionVector { .. },
            )),
            self.deletion_vector matches Some(d) && count_set(deleted_bits(deleted@))
                != d.cardinality ==> r matches Err(Error::MalformedDeletionVector { .. }),
    {
        match &self.deletion_vector {
            None => Ok(None),
            Some(d) => match deleted_rows_bitmap(deleted, d.cardinality) {
                Ok(v) => Ok(Some(v)),
                Err(e) => Err(e),
            },
        }
    }
}

/// Whether row `i` stays live, given the file-level selection `sel` and a deletion bitmap.
pub open spec fn live_after(sel: Seq<bool>, deleted: Option<Seq<bool>>, i: int) -> bool {
    sel[i] && match deleted {
        None => true,
        Some(d) => !(i < d.len() && d[i]),
    }
}

/// The rows of a file that stay live: those that `selection` keeps and the deletion bitmap,
/// if any, does not delete.
pub fn apply_deletion_vector(selection: &Vec<bool>, deleted: &Option<Vec<bool>>) -> (r: Vec<bool>)
    ensures
        r@.len() == selection@.len(),
        forall|i: int|
            0 <= i < r@.len() ==> #[trigger] r@[i] == live_after(
                selection@,
                match deleted {
                    Some(d) => Some(d@),
                    None => None,
                },
                i,
            ),
        deleted is None ==> r@ == selection@,
{
    let ghost dv = match deleted {
        Some(d) => Some(d@),
        None => None::<Seq<bool>>,
    };
    let mut out: Vec<bool> = Vec::new();
    let mut i: usize = 0;
    while i < selection.len()
        invariant
            i <= selection@.len(),
            out@.len() == i,
            dv == match deleted {
                Some(d) => Some(d@),
                None => None::<Seq<bool>>,
            },
            forall|k: int| 0 <= k < i ==> #[trigger] out@[k] == live_after(selection@, dv, k),
        decreases selection@.len() - i,
    {
        let gone = match deleted {
            Some(d) => i < d.len() && d[i],
            None => false,
        };
        out.push(selection[i] && !gone);
        i = i + 1;
    }
    proof {
        if deleted is None {
            assert(out@ =~= selection@);
        }
    }
    out
}

} // verus!
