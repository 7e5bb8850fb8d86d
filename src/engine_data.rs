//! Per-row access to extracted columns: typed getters, and lazy access to the elements of
//! list and map values.
use vstd::prelude::*;

use crate::error::Error;
use crate::extract::Accessor;

verus! {

/// The number of rows `a` can answer; the null accessor answers any row.
pub open spec fn rows_of<'a>(a: Accessor<'a>) -> Option<int> {
    match a {
        Accessor::Null => None,
        Accessor::Boolean(v) => Some(v@.len() as int),
        Accessor::Int32(v) => Some(v@.len() as int),
        Accessor::Int64(v) => Some(v@.len() as int),
        Accessor::Utf8(v) => Some(v@.len() as int),
        Accessor::List(v) => Some(v@.len() as int),
        Accessor::KeyValue(v) => Some(v@.len() as int),
    }
}

/// `row` is a row that `a` can answer.
pub open spec fn row_in_range<'a>(a: Accessor<'a>, row: int) -> bool {
    0 <= row && (rows_of(a) matches Some(n) ==> row < n)
}

/// The value, if any, of `key` in the map entries `entries`: that of the first entry with the
/// key.
pub open spec fn map_lookup_from(
    entries: Seq<(String, Option<String>)>,
    key: Seq<char>,
    i: int,
) -> Option<Option<String>>
    decreases entries.len() - i,
{
    if i < 0 || i >= entries.len() {
        None
    } else if entries[i].0@ == key {
        Some(entries[i].1)
    } else {
        map_lookup_from(entries, key, i + 1)
    }
}

proof fn lemma_map_lookup_skip(entries: Seq<(String, Option<String>)>, key: Seq<char>, i: int, k: int)
    requires
        0 <= i <= k <= entries.len(),
        forall|j: int| i <= j < k ==> #[trigger] entries[j].0@ != key,
    ensures
        map_lookup_from(entries, key, i) == map_lookup_from(entries, key, k),
    decreases k - i,
{
    if i < k {
        lemma_map_lookup_skip(entries, key, i + 1, k);
    }
}

impl<'a> Accessor<'a> {
    /// The boolean at `row`; `None` where it is null.
    pub fn get_bool(&self, row: usize) -> (r: Result<Option<bool>, Error>)
        requires
            row_in_range(*self, row as int),
        ensures
            *self is Null ==> r == Ok::<Option<bool>, Error>(None),
            *self matches Accessor::Boolean(v) ==> r == Ok::<Option<bool>, Error>(v@[row as int]),
            !(*self is Null || *self is Boolean) <==> r is Err,
    {
        match self {
            Accessor::Null => Ok(None),
            Accessor::Boolean(v) => Ok(v[row]),
            _ => Err(Error::UnexpectedColumnType(String::from_str("boolean"))),
        }
    }

    /// The 32-bit integer at `row`; `None` where it is null.
    pub fn get_int(&self, row: usize) -> (r: Result<Option<i32>, Error>)
        requires
            row_in_range(*self, row as int),
        ensures
            *self is Null ==> r == Ok::<Option<i32>, Error>(None),
            *self matches Accessor::Int32(v) ==> r == Ok::<Option<i32>, Error>(v@[row as int]),
            !(*self is Null || *self is Int32) <==> r is Err,
    {
        match self {
            Accessor::Null => Ok(None),
            Accessor::Int32(v) => Ok(v[row]),
            _ => Err(Error::UnexpectedColumnType(String::from_str("int"))),
        }
    }

    /// The 64-bit integer at `row`; `None` where it is null.
    pub fn get_long(&self, row: usize) -> (r: Result<Option<i64>, Error>)
        requires
            row_in_range(*self, row as int),
        ensures
            *self is Null ==> r == Ok::<Option<i64>, Error>(None),
            *self matches Accessor::Int64(v) ==> r == Ok::<Option<i64>, Error>(v@[row as int]),
            !(*self is Null || *self is Int64) <==> r is Err,
    {
        match self {
            Accessor::Null => Ok(None),
            Accessor::Int64(v) => Ok(v[row]),
            _ => Err(Error::UnexpectedColumnType(String::from_str("long"))),
        }
    }

    /// The string at `row`; `None` where it is null.
    pub fn get_str(&self, row: usize) -> (r: Result<Option<&'a String>, Error>)
        requires
            row_in_range(*self, row as int),
        ensures
            *self is Null ==> r matches Ok(None),
            *self matches Accessor::Utf8(v) ==> (r matches Ok(x) && x == match v@[row as int] {
                Some(s) => Some(&s),
                None => None,
            }),
            !(*self is Null || *self is Utf8) <==> r is Err,
    {
        match self {
            Accessor::Null => Ok(None),
            Accessor::Utf8(v) => match &v[row] {
                Some(s) => Ok(Some(s)),
                None => Ok(None),
            },
            _ => Err(Error::UnexpectedColumnType(String::from_str("string"))),
        }
    }

    /// The list at `row`; `None` where it is null.
    pub fn get_list(&self, row: usize) -> (r: Result<Option<&'a Vec<Option<String>>>, Error>)
        requires
            row_in_range(*self, row as int),
        ensures
            *self is Null ==> r matches Ok(None),
            *self matches Accessor::List(v) ==> (r matches Ok(x) && x == match v@[row as int] {
                Some(l) => Some(&l),
                None => None,
            }),
            !(*self is Null || *self is List) <==> r is Err,
    {
        match self {
            Accessor::Null => Ok(None),
            Accessor::List(v) => match &v[row] {
                Some(l) => Ok(Some(l)),
                None => Ok(None),
            },
            _ => Err(Error::UnexpectedColumnType(String::from_str("list"))),
        }
    }

    /// The map at `row`, as its entries; `None` where it is null.
    pub fn get_map(&self, row: usize) -> (r: Result<Option<&'a Vec<(String, Option<String>)>>, Error>)
        requires
            row_in_range(*self, row as int),
        ensures
            *self is Null ==> r matches Ok(None),
            *self matches Accessor::KeyValue(v) ==> (r matches Ok(x) && x == match v@[row as int] {
                Some(m) => Some(&m),
                None => None,
            }),
            !(*self is Null || *self is KeyValue) <==> r is Err,
    {
        match self {
            Accessor::Null => Ok(None),
            Accessor::KeyValue(v) => match &v[row] {
                Some(m) => Ok(Some(m)),
                None => Ok(None),
            },
            _ => Err(Error::UnexpectedColumnType(String::from_str("map"))),
        }
    }
}

/// The number of elements of a list value.
pub fn list_len(list: &Vec<Option<String>>) -> (r: usize)
    ensures
        r == list@.len(),
{
    list.len()
}

/// The element at `index` of a list value, without reading the others.
pub fn list_get(list: &Vec<Option<String>>, index: usize) -> (r: Option<String>)
    requires
        index < list@.len(),
    ensures
        r == list@[index as int],
{
    match &list[index] {
        Some(s) => Some(s.clone()),
        None => None,
    }
}

/// The non-null elements of `list`, in order.
pub open spec fn present(list: Seq<Option<String>>) -> Seq<Seq<char>>
    decreases list.len(),
{
    if list.len() == 0 {
        Seq::empty()
    } else {
        match list.last() {
            Some(s) => present(list.drop_last()).push(s@),
            None => present(list.drop_last()),
        }
    }
}

/// The non-null elements of a list value, in order.
pub(crate) fn non_null_strings(list: &Vec<Option<String>>) -> (r: Vec<String>)
    ensures
        r@.map_values(|s: String| s@) == present(list@),
{
    let mut out: Vec<String> = Vec::new();
    let mut i: usize = 0;
    proof {
        assert(list@.subrange(0, 0) =~= Seq::<Option<String>>::empty());
        assert(out@.map_values(|s: String| s@) =~= Seq::<Seq<char>>::empty());
    }
    while i < list.len()
        invariant
            i <= list@.len(),
            out@.map_values(|s: String| s@) == present(list@.subrange(0, i as int)),
        decreases list@.len() - i,
    {
        proof {
            assert(list@.subrange(0, i + 1).drop_last() =~= list@.subrange(0, i as int));
        }
        let ghost prev = out@;
        match &list[i] {
            Some(s) => {
                out.push(s.clone());
                proof {
                    assert(out@.map_values(|s: String| s@) =~= prev.map_values(|s: String| s@).push(s@));
                }
            },
            None => {},
        }
        i = i + 1;
    }
    proof {
        assert(list@.subrange(0, list@.len() as int) =~= list@);
    }
    out
}

/// Every element of a list value, in order, each as `list_get` gives it.
pub fn list_materialize(list: &Vec<Option<String>>) -> (r: Vec<Option<String>>)
    ensures
        r@ == list@,
        r@.len() == list@.len(),
{
    let mut out: Vec<Option<String>> = Vec::new();
    let mut i: usize = 0;
    while i < list.len()
        invariant
            i <= list@.len(),
            out@ == list@.subrange(0, i as int),
        decreases list@.len() - i,
    {
        out.push(list_get(list, i));
        proof {
            assert(out@ =~= list@.subrange(0, i + 1));
        }
        i = i + 1;
    }
    proof {
        assert(list@.subrange(0, list@.len() as int) =~= list@);
    }
    out
}

/// The value of `key` in a map value, without building the map: that of the first entry with
/// the key; `None` where there is none, `Some(None)` where its value is null.
pub fn map_get<'b>(entries: &'b Vec<(String, Option<String>)>, key: &str) -> (r: Option<
    &'b Option<String>,
>)
    ensures
        r matches Some(v) ==> map_lookup_from(entries@, key@, 0) == Some(*v),
        r is None ==> map_lookup_from(entries@, key@, 0) is None,
{
    let k = String::from_str(key);
    let mut i: usize = 0;
    while i < entries.len()
        invariant
            k@ == key@,
            i <= entries@.len(),
            forall|j: int| 0 <= j < i ==> #[trigger] entries@[j].0@ != key@,
        decreases entries@.len() - i,
    {
        if entries[i].0 == k {
            proof {
                lemma_map_lookup_skip(entries@, key@, 0, i as int);
            }
            return Some(&entries[i].1);
        }
        i = i + 1;
    }
    proof {
        lemma_map_lookup_skip(entries@, key@, 0, entries@.len() as int);
    }
    None
}

/// The value of the last entry with key `key` among the entries from position `i` on.
pub open spec fn last_value_from(
    entries: Seq<(String, Option<String>)>,
    key: Seq<char>,
    i: int,
) -> Option<Option<String>>
    decreases entries.len() - i,
{
    if i < 0 || i >= entries.len() {
        None
    } else {
        match last_value_from(entries, key, i + 1) {
            Some(v) => Some(v),
            None => if entries[i].0@ == key {
                Some(entries[i].1)
            } else {
                None
            },
        }
    }
}

/// No two of `entries` share a key.
pub open spec fn keys_unique(entries: Seq<(String, Option<String>)>) -> bool {
    forall|a: int, b: int|
        0 <= a < b < entries.len() ==> #[trigger] entries[a].0@ != #[trigger] entries[b].0@
}

proof fn lemma_lookup_push(entries: Seq<(String, Option<String>)>, e: (String, Option<String>), key: Seq<char>, i: int)
    requires
        0 <= i <= entries.len(),
    ensures
        map_lookup_from(entries.push(e), key, i) == match map_lookup_from(entries, key, i) {
            Some(v) => Some(v),
            None => if e.0@ == key {
                Some(e.1)
            } else {
                None
            },
        },
    decreases entries.len() - i,
{
    if i < entries.len() {
        assert(entries.push(e)[i] == entries[i]);
        lemma_lookup_push(entries, e, key, i + 1);
    } else {
        assert(entries.push(e)[i] == e);
        assert(map_lookup_from(entries.push(e), key, i + 1) is None);
    }
}

/// The whole map value of `entries`: one entry per key, holding the value of the last entry
/// with that key, as inserting the entries in order into a map would leave it.
pub fn map_materialize(entries: &Vec<(String, Option<String>)>) -> (r: Vec<(String, Option<String>)>)
    ensures
        keys_unique(r@),
        forall|key: Seq<char>| #[trigger] map_lookup_from(r@, key, 0) == last_value_from(entries@, key, 0),
{
    let mut out: Vec<(String, Option<String>)> = Vec::new();
    let mut i: usize = entries.len();
    while i > 0
        invariant
            i <= entries@.len(),
            keys_unique(out@),
            forall|key: Seq<char>| #[trigger] map_lookup_from(out@, key, 0) == last_value_from(entries@, key, i as int),
        decreases i,
    {
        let e = &entries[i - 1];
        let ghost prev = out@;
        let ghost k = e.0@;
        let found = map_get(&out, e.0.as_str());
        if found.is_none() {
            let copy = (e.0.clone(), match &e.1 {
                Some(v) => Some(v.clone()),
                None => None,
            });
            out.push(copy);
            proof {
                assert(map_lookup_from(prev, k, 0) is None);
                assert forall|key: Seq<char>| #[trigger] map_lookup_from(out@, key, 0) == last_value_from(entries@, key, i - 1) by {
                    lemma_lookup_push(prev, copy, key, 0);
                }
                assert forall|a: int, b: int| 0 <= a < b < out@.len() implies #[trigger] out@[a].0@ != #[trigger] out@[b].0@ by {
                    if b == prev.len() {
                        assert(out@[a] == prev[a]);
                        lemma_lookup_absent(prev, k, a);
                    } else {
                        assert(out@[a] == prev[a]);
                        assert(out@[b] == prev[b]);
                    }
                }
            }
        } else {
            proof {
                assert forall|key: Seq<char>| #[trigger] map_lookup_from(out@, key, 0) == last_value_from(entries@, key, i - 1) by {
                    if key == k {
                        assert(map_lookup_from(prev, k, 0) is Some);
                    }
                }
            }
        }
        i = i - 1;
    }
    out
}

proof fn lemma_lookup_absent(entries: Seq<(String, Option<String>)>, key: Seq<char>, a: int)
    requires
        0 <= a < entries.len(),
        map_lookup_from(entries, key, 0) is None,
    ensures
        entries[a].0@ != key,
{
    lemma_lookup_none_from(entries, key, 0, a);
}

proof fn lemma_lookup_none_from(entries: Seq<(String, Option<String>)>, key: Seq<char>, i: int, a: int)
    requires
        0 <= i <= a < entries.len(),
        map_lookup_from(entries, key, i) is None,
    ensures
        entries[a].0@ != key,
    decreases a - i,
{
    if i < a {
        lemma_lookup_none_from(entries, key, i + 1, a);
    }
}

} // verus!
