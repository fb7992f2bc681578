use vstd::prelude::*;

use polars_core::prelude::{ChunkSort, PlSmallStr, SortOptions, UInt64Chunked};

use crate::error::QueryError;

verus! {

/// The columns that the store materialised for one component at the queried
/// time. A column the store does not have is `None`: `instances` is `None`
/// when the component was logged without explicit instance keys.
pub struct StoreColumns<V> {
    pub instances: Option<Vec<u64>>,
    pub values: Option<Vec<V>>,
}

/// One component's rows as the store returned them: its values, and its
/// instance keys where they were logged explicitly.
pub struct ComponentData<V> {
    pub name: String,
    pub instances: Option<Vec<u64>>,
    pub values: Vec<V>,
}

impl<V> ComponentData<V> {
    /// Explicit keys, where present, give one key per value.
    pub open spec fn wf(&self) -> bool {
        match self.instances {
            Some(k) => k@.len() == self.values@.len(),
            None => true,
        }
    }
}

/// The columns of a store answer are present and agree in length.
pub open spec fn columns_fit<V>(c: StoreColumns<V>) -> bool {
    match (c.instances, c.values) {
        (Some(k), Some(v)) => k@.len() == v@.len(),
        (None, Some(v)) => true,
        (_, None) => false,
    }
}

/// `d` is the table of the component named `name` whose store answer is `c`.
pub open spec fn built_from<V>(d: ComponentData<V>, name: Seq<char>, c: StoreColumns<V>) -> bool {
    &&& d.name@ == name
    &&& d.wf()
    &&& match c.values {
        Some(v) => d.values@ == v@,
        None => false,
    }
    &&& match c.instances {
        Some(k) => match d.instances {
            Some(dk) => dk@ == k@,
            None => false,
        },
        None => d.instances.is_none(),
    }
}

/// A copy of the elements of `v`.
fn copy_vec<T: Copy>(v: &Vec<T>) -> (r: Vec<T>)
    ensures
        r@ == v@,
{
    let mut r: Vec<T> = Vec::new();
    let mut i: usize = 0;
    while i < v.len()
        invariant
            i <= v@.len(),
            r@ == v@.subrange(0, i as int),
        decreases v@.len() - i,
    {
        r.push(v[i]);
        i = i + 1;
        proof {
            assert(r@ =~= v@.subrange(0, i as int));
        }
    }
    proof {
        assert(r@ =~= v@);
    }
    r
}

/// Builds the table of `component` from what the store answered for it.
///
/// `found` is `None` when the store holds no visible row for the component:
/// that is `PrimaryNotFound`. A missing value column is `BadAccess`; key and
/// value columns of different lengths are a `TableError`.
pub fn get_component_with_instances<V: Copy>(
    component: &String,
    found: &Option<StoreColumns<V>>,
) -> (r: Result<ComponentData<V>, QueryError>)
    ensures
        found.is_none() ==> r == Err::<ComponentData<V>, QueryError>(QueryError::PrimaryNotFound),
        *found matches Some(c) && c.values.is_none() ==> r == Err::<ComponentData<V>, QueryError>(
            QueryError::BadAccess,
        ),
        *found matches Some(c) && c.values.is_some() && !columns_fit(c) ==> r == Err::<
            ComponentData<V>,
            QueryError,
        >(QueryError::TableError),
        found.is_some() && columns_fit(found.unwrap()) ==> (r matches Ok(d) && built_from(
            d,
            component@,
            found.unwrap(),
        )),
{
    match found {
        None => Err(QueryError::PrimaryNotFound),
        Some(c) => match &c.values {
            None => Err(QueryError::BadAccess),
            Some(vals) => match &c.instances {
                None => Ok(
                    ComponentData { name: component.clone(), instances: None, values: copy_vec(vals) },
                ),
                Some(keys) => {
                    if keys.len() != vals.len() {
                        Err(QueryError::TableError)
                    } else {
                        Ok(
                            ComponentData {
                                name: component.clone(),
                                instances: Some(copy_vec(keys)),
                                values: copy_vec(vals),
                            },
                        )
                    }
                },
            },
        },
    }
}

/// A component table whose instance-key column is present and sorted.
pub struct ComponentTable<V> {
    pub name: String,
    pub instances: Vec<u64>,
    pub values: Vec<V>,
}

impl<V> ComponentTable<V> {
    /// One key per value, keys in ascending order.
    pub open spec fn wf(&self) -> bool {
        &&& self.instances@.len() == self.values@.len()
        &&& sorted(self.instances@)
    }

    /// The number of rows.
    pub fn num_rows(&self) -> (r: usize)
        ensures
            r == self.values@.len(),
    {
        self.values.len()
    }
}

/// Keys in ascending order (equal neighbours allowed).
pub open spec fn sorted(k: Seq<u64>) -> bool {
    forall|i: int, j: int| 0 <= i < j < k.len() ==> k[i] <= k[j]
}

/// Keys `0, 1, ..., n - 1`: each row's ordinal.
pub open spec fn row_ordinals(k: Seq<u64>, n: nat) -> bool {
    &&& k.len() == n
    &&& forall|i: int| 0 <= i < n ==> #[trigger] k[i] == i as u64
}

/// Row `i` of the output is row `p[i]` of the input, `p` is one-to-one, the
/// output keys ascend, and rows with equal keys keep their input order.
pub open spec fn stable_sort_by<V>(
    p: Seq<int>,
    in_k: Seq<u64>,
    in_v: Seq<V>,
    out_k: Seq<u64>,
    out_v: Seq<V>,
) -> bool {
    &&& p.len() == in_k.len() && in_v.len() == in_k.len()
    &&& out_k.len() == p.len() && out_v.len() == p.len()
    &&& forall|i: int|
        0 <= i < p.len() ==> 0 <= #[trigger] p[i] < in_k.len() && out_k[i] == in_k[p[i]]
            && out_v[i] == in_v[p[i]]
    &&& forall|i: int, j: int| 0 <= i < j < p.len() ==> p[i] != p[j]
    &&& sorted(out_k)
    &&& forall|i: int, j: int| 0 <= i < j < p.len() && out_k[i] == out_k[j] ==> p[i] < p[j]
}

/// `(out_k, out_v)` is the stable sort by key of `(in_k, in_v)`.
pub open spec fn stably_sorted_from<V>(
    out_k: Seq<u64>,
    out_v: Seq<V>,
    in_k: Seq<u64>,
    in_v: Seq<V>,
) -> bool {
    exists|p: Seq<int>| #[trigger] stable_sort_by(p, in_k, in_v, out_k, out_v)
}

/// Explicit keys more than the sort can index.
pub open spec fn too_long_to_sort(keys: Option<Vec<u64>>) -> bool {
    match keys {
        Some(k) => k@.len() >= u32::MAX,
        None => false,
    }
}

/// `(tk, tv)` is the normalised form of values `v` with key column `keys`:
/// explicit keys stably sorted with their values, or row ordinals as keys.
pub open spec fn sorted_keys_of<V>(tk: Seq<u64>, tv: Seq<V>, keys: Option<Vec<u64>>, v: Seq<V>) -> bool {
    match keys {
        Some(k) => stably_sorted_from(tk, tv, k@, v),
        None => row_ordinals(tk, v.len()) && tv == v,
    }
}

/// The order in which a stable ascending sort by key lists the rows.
///
/// Relies on polars' `ChunkSort::arg_sort` on a `UInt64Chunked` without
/// nulls: it sorts (index, key) pairs by key with a stable sort (or returns
/// `0..n` when the column is flagged sorted). polars panics on a column of
/// `u32::MAX` rows or more.
#[verifier::external_body]
fn arg_sort_keys(keys: &Vec<u64>) -> (ord: Vec<usize>)
    requires
        keys@.len() < u32::MAX,
    ensures
        ord@.len() == keys@.len(),
        forall|a: int| 0 <= a < ord@.len() ==> #[trigger] ord@[a] < keys@.len(),
        forall|a: int, b: int| 0 <= a < b < ord@.len() ==> ord@[a] != ord@[b],
        forall|a: int, b: int|
            0 <= a < b < ord@.len() ==> keys@[ord@[a] as int] <= keys@[ord@[b] as int],
        forall|a: int, b: int|
            0 <= a < b < ord@.len() && keys@[ord@[a] as int] == keys@[ord@[b] as int] ==> ord@[a]
                < ord@[b],
{
    let column = UInt64Chunked::from_vec(PlSmallStr::from_static("instance"), keys.clone());
    column.arg_sort(SortOptions::default()).into_no_null_iter().map(|i| i as usize).collect()
}

/// Gives `data` a sorted instance-key column.
///
/// Explicit keys are stably sorted together with their values; a key column
/// too long for the sort to index is a `TableError`. Without explicit keys
/// each row gets its 0-based ordinal as its key.
pub fn add_instances_and_sort_if_needed<V: Copy>(data: &ComponentData<V>) -> (r: Result<
    ComponentTable<V>,
    QueryError,
>)
    requires
        data.wf(),
    ensures
        r is Err <==> too_long_to_sort(data.instances),
        r is Err ==> r == Err::<ComponentTable<V>, QueryError>(QueryError::TableError),
        r matches Ok(t) ==> t.wf() && t.name@ == data.name@ && sorted_keys_of(
            t.instances@,
            t.values@,
            data.instances,
            data.values@,
        ),
{
    let name = data.name.clone();
    match &data.instances {
        None => {
            let n = data.values.len();
            let mut keys: Vec<u64> = Vec::new();
            let mut i: usize = 0;
            while i < n
                invariant
                    i <= n,
                    keys@.len() == i,
                    forall|a: int| 0 <= a < i ==> #[trigger] keys@[a] == a as u64,
                decreases n - i,
            {
                keys.push(i as u64);
                i = i + 1;
            }
            proof {
                assert forall|a: int, b: int| 0 <= a < b < keys@.len() implies keys@[a] <= keys@[b] by {
                    assert(keys@[a] == a as u64 && keys@[b] == b as u64);
                }
            }
            Ok(ComponentTable { name, instances: keys, values: copy_vec(&data.values) })
        },
        Some(keys) => {
            if keys.len() >= u32::MAX as usize {
                return Err(QueryError::TableError);
            }
            let ord = arg_sort_keys(keys);
            let mut out_k: Vec<u64> = Vec::new();
            let mut out_v: Vec<V> = Vec::new();
            let mut j: usize = 0;
            while j < ord.len()
                invariant
                    ord@.len() == keys@.len(),
                    keys@.len() == data.values@.len(),
                    j <= ord@.len(),
                    forall|a: int| 0 <= a < ord@.len() ==> #[trigger] ord@[a] < keys@.len(),
                    out_k@.len() == j && out_v@.len() == j,
                    forall|a: int|
                        0 <= a < j ==> #[trigger] out_k@[a] == keys@[ord@[a] as int] && out_v@[a]
                            == data.values@[ord@[a] as int],
                decreases ord@.len() - j,
            {
                let o = ord[j];
                out_k.push(keys[o]);
                out_v.push(data.values[o]);
                j = j + 1;
            }
            let ghost p = ord@.map_values(|x: usize| x as int);
            proof {
                assert forall|a: int| 0 <= a < p.len() implies #[trigger] p[a] == ord@[a] as int by {}
                assert forall|a: int, b: int| 0 <= a < b < out_k@.len() implies out_k@[a] <= out_k@[b] by {
                    assert(out_k@[a] == keys@[ord@[a] as int]);
                    assert(out_k@[b] == keys@[ord@[b] as int]);
                }
                assert forall|a: int, b: int|
                    0 <= a < b < p.len() && out_k@[a] == out_k@[b] implies p[a] < p[b] by {
                    assert(out_k@[a] == keys@[ord@[a] as int]);
                    assert(out_k@[b] == keys@[ord@[b] as int]);
                }
                assert forall|a: int, b: int| 0 <= a < b < p.len() implies p[a] != p[b] by {
                    assert(p[a] == ord@[a] as int && p[b] == ord@[b] as int);
                }
                assert forall|a: int| 0 <= a < p.len() implies 0 <= #[trigger] p[a] < keys@.len()
                    && out_k@[a] == keys@[p[a]] && out_v@[a] == data.values@[p[a]] by {
                    assert(p[a] == ord@[a] as int);
                    assert(out_k@[a] == keys@[ord@[a] as int]);
                }
                assert(stable_sort_by(p, keys@, data.values@, out_k@, out_v@));
            }
            Ok(ComponentTable { name, instances: out_k, values: out_v })
        },
    }
}

} // verus!
