use vstd::prelude::*;

use crate::error::QueryError;
use crate::table::{
    add_instances_and_sort_if_needed, get_component_with_instances, sorted_keys_of, ComponentTable,
    StoreColumns,
};

verus! {

/// A requested component together with what the store answered for it at
/// the queried entity and time (`None`: no visible data).
pub struct ComponentAnswer<V> {
    pub name: String,
    pub found: Option<StoreColumns<V>>,
}

/// One joined column: for each row of the view, the component's value at
/// that row's instance key, or `None` where the component has no such key.
pub struct JoinedColumn<V> {
    pub name: String,
    pub cells: Vec<Option<V>>,
}

/// An entity at one query time: the primary component's sorted table fixes
/// the rows, and each requested component adds one column in request order.
pub struct EntityView<V> {
    pub primary: ComponentTable<V>,
    pub columns: Vec<JoinedColumn<V>>,
}

impl<V> EntityView<V> {
    /// The primary table is sorted, and every column has one cell per row.
    pub open spec fn wf(&self) -> bool {
        &&& self.primary.wf()
        &&& forall|i: int|
            0 <= i < self.columns@.len() ==> (#[trigger] self.columns@[i]).cells@.len()
                == self.primary.instances@.len()
    }

    /// The number of rows: one per primary instance.
    pub fn num_rows(&self) -> (r: usize)
        ensures
            r == self.primary.values@.len(),
    {
        self.primary.num_rows()
    }
}

/// The error that fetching the component of answer `a` ends in, if any.
pub open spec fn fetch_error<V>(a: ComponentAnswer<V>) -> Option<QueryError> {
    match a.found {
        None => Some(QueryError::PrimaryNotFound),
        Some(c) => match c.values {
            None => Some(QueryError::BadAccess),
            Some(v) => match c.instances {
                Some(k) => if k@.len() != v@.len() || k@.len() >= u32::MAX {
                    Some(QueryError::TableError)
                } else {
                    None
                },
                None => None,
            },
        },
    }
}

/// The error of answer `a` that aborts a join: any but an absent component.
pub open spec fn fatal_error<V>(a: ComponentAnswer<V>) -> Option<QueryError> {
    match fetch_error(a) {
        Some(QueryError::PrimaryNotFound) => None,
        e => e,
    }
}

/// The fatal error of the first of the first `n` answers that has one.
pub open spec fn first_fatal<V>(s: Seq<ComponentAnswer<V>>, n: int) -> Option<QueryError>
    decreases n,
{
    if n <= 0 {
        None
    } else {
        match first_fatal(s, n - 1) {
            Some(e) => Some(e),
            None => fatal_error(s[n - 1]),
        }
    }
}

/// `(tk, tv)` is the normalised table of a successfully fetched answer `a`:
/// explicit keys stably sorted with their values, or row ordinals as keys.
pub open spec fn normalized_answer<V>(tk: Seq<u64>, tv: Seq<V>, a: ComponentAnswer<V>) -> bool {
    match a.found {
        Some(c) => match c.values {
            Some(v) => sorted_keys_of(tk, tv, c.instances, v@),
            None => false,
        },
        None => false,
    }
}

/// The value of the last of the first `n` rows whose key is exactly `key`.
pub open spec fn match_in<V>(tk: Seq<u64>, tv: Seq<V>, key: u64, n: int) -> Option<V>
    decreases n,
{
    if n <= 0 {
        None
    } else if tk[n - 1] == key {
        Some(tv[n - 1])
    } else {
        match_in(tk, tv, key, n - 1)
    }
}

/// `cells` holds, for each key of `keys`, the value that table `(tk, tv)`
/// has at exactly that key.
pub open spec fn joins<V>(cells: Seq<Option<V>>, keys: Seq<u64>, tk: Seq<u64>, tv: Seq<V>) -> bool {
    &&& cells.len() == keys.len()
    &&& forall|i: int|
        0 <= i < keys.len() ==> #[trigger] cells[i] == match_in(tk, tv, keys[i], tk.len() as int)
}

/// Column `col` is answer `a` joined onto rows keyed by `keys`: all null
/// when the component is absent, else its normalised table matched by key.
pub open spec fn column_joined<V>(col: JoinedColumn<V>, keys: Seq<u64>, a: ComponentAnswer<V>) -> bool {
    &&& col.name@ == a.name@
    &&& col.cells@.len() == keys.len()
    &&& if fetch_error(a) == Some(QueryError::PrimaryNotFound) {
        forall|i: int| 0 <= i < keys.len() ==> (#[trigger] col.cells@[i]).is_none()
    } else {
        exists|tk: Seq<u64>, tv: Seq<V>|
            #[trigger] normalized_answer(tk, tv, a) && #[trigger] joins(col.cells@, keys, tk, tv)
    }
}

/// `view` is the join of `primary` with `comps`, in order.
pub open spec fn view_of<V>(
    view: EntityView<V>,
    primary: ComponentAnswer<V>,
    comps: Seq<ComponentAnswer<V>>,
) -> bool {
    &&& view.wf()
    &&& view.primary.name@ == primary.name@
    &&& normalized_answer(view.primary.instances@, view.primary.values@, primary)
    &&& view.columns@.len() == comps.len()
    &&& forall|i: int|
        0 <= i < comps.len() ==> column_joined(
            #[trigger] view.columns@[i],
            view.primary.instances@,
            comps[i],
        )
}

/// For each key of `keys`, the value that `t` holds at exactly that key.
pub fn join_cells<V: Copy>(keys: &Vec<u64>, t: &ComponentTable<V>) -> (cells: Vec<Option<V>>)
    requires
        t.wf(),
    ensures
        joins(cells@, keys@, t.instances@, t.values@),
{
    let mut cells: Vec<Option<V>> = Vec::new();
    let mut i: usize = 0;
    while i < keys.len()
        invariant
            t.wf(),
            i <= keys@.len(),
            cells@.len() == i,
            forall|a: int|
                0 <= a < i ==> #[trigger] cells@[a] == match_in(
                    t.instances@,
                    t.values@,
                    keys@[a],
                    t.instances@.len() as int,
                ),
        decreases keys@.len() - i,
    {
        let key = keys[i];
        let mut found: Option<V> = None;
        let mut j: usize = 0;
        while j < t.instances.len()
            invariant
                t.wf(),
                j <= t.instances@.len(),
                found == match_in(t.instances@, t.values@, key, j as int),
            decreases t.instances@.len() - j,
        {
            if t.instances[j] == key {
                found = Some(t.values[j]);
            }
            j = j + 1;
        }
        cells.push(found);
        i = i + 1;
    }
    cells
}

/// A column for `name` with no value on any of `n` rows.
fn null_column<V>(name: &String, n: usize) -> (col: JoinedColumn<V>)
    ensures
        col.name@ == name@,
        col.cells@.len() == n,
        forall|i: int| 0 <= i < n ==> (#[trigger] col.cells@[i]).is_none(),
{
    let mut cells: Vec<Option<V>> = Vec::new();
    let mut i: usize = 0;
    while i < n
        invariant
            i <= n,
            cells@.len() == i,
            forall|a: int| 0 <= a < i ==> (#[trigger] cells@[a]).is_none(),
        decreases n - i,
    {
        cells.push(None);
        i = i + 1;
    }
    JoinedColumn { name: name.clone(), cells }
}

/// Retrieves an entity as one table whose rows are those of `primary`.
///
/// The primary component is fetched and normalised first; if that fails the
/// whole query fails with the same error. Then, left to right, each of
/// `components` is fetched, normalised and joined onto the rows by exact
/// instance key. A component with no data is an all-null column; any other
/// error aborts the query.
pub fn query_entity_with_primary<V: Copy>(
    primary: &ComponentAnswer<V>,
    components: &Vec<ComponentAnswer<V>>,
) -> (r: Result<EntityView<V>, QueryError>)
    ensures
        fetch_error(*primary) is Some ==> r == Err::<EntityView<V>, QueryError>(
            fetch_error(*primary).unwrap(),
        ),
        fetch_error(*primary) is None && first_fatal(components@, components@.len() as int) is Some
            ==> r == Err::<EntityView<V>, QueryError>(
            first_fatal(components@, components@.len() as int).unwrap(),
        ),
        fetch_error(*primary) is None && first_fatal(components@, components@.len() as int) is None
            ==> (r matches Ok(view) && view_of(view, *primary, components@)),
{
    let data = match get_component_with_instances(&primary.name, &primary.found) {
        Ok(d) => d,
        Err(e) => {
            return Err(e);
        },
    };
    let table = match add_instances_and_sort_if_needed(&data) {
        Ok(t) => t,
        Err(e) => {
            return Err(e);
        },
    };
    let mut columns: Vec<JoinedColumn<V>> = Vec::new();
    let mut i: usize = 0;
    while i < components.len()
        invariant
            fetch_error(*primary) is None,
            table.wf(),
            table.name@ == primary.name@,
            normalized_answer(table.instances@, table.values@, *primary),
            i <= components@.len(),
            first_fatal(components@, i as int) is None,
            columns@.len() == i,
            forall|a: int|
                0 <= a < i ==> column_joined(
                    #[trigger] columns@[a],
                    table.instances@,
                    components@[a],
                ),
        decreases components@.len() - i,
    {
        let answer = &components[i];
        match get_component_with_instances(&answer.name, &answer.found) {
            Ok(d) => {
                let t = match add_instances_and_sort_if_needed(&d) {
                    Ok(t) => t,
                    Err(e) => {
                        proof {
                            assert(fatal_error(*answer) == Some(e));
                            assert forall|n: int| i < n <= components@.len() implies first_fatal(
                                components@,
                                n,
                            ) == Some(e) by {
                                lemma_first_fatal_stays(components@, i as int + 1, n);
                            }
                        }
                        return Err(e);
                    },
                };
                let cells = join_cells(&table.instances, &t);
                proof {
                    assert(normalized_answer(t.instances@, t.values@, *answer));
                    assert(joins(cells@, table.instances@, t.instances@, t.values@));
                }
                columns.push(JoinedColumn { name: answer.name.clone(), cells });
            },
            Err(QueryError::PrimaryNotFound) => {
                columns.push(null_column(&answer.name, table.instances.len()));
            },
            Err(e) => {
                proof {
                    assert forall|n: int| i < n <= components@.len() implies first_fatal(
                        components@,
                        n,
                    ) == Some(e) by {
                        lemma_first_fatal_stays(components@, i as int + 1, n);
                    }
                }
                return Err(e);
            },
        }
        proof {
            assert(columns@[i as int] == columns@.last());
        }
        i = i + 1;
    }
    let view = EntityView { primary: table, columns };
    proof {
        assert forall|a: int| 0 <= a < view.columns@.len() implies (
        #[trigger] view.columns@[a]).cells@.len() == view.primary.instances@.len() by {
            assert(column_joined(view.columns@[a], table.instances@, components@[a]));
        }
    }
    Ok(view)
}

/// Once one of the first `m` answers is fatal, the first fatal error of any
/// longer prefix is the same.
proof fn lemma_first_fatal_stays<V>(s: Seq<ComponentAnswer<V>>, m: int, n: int)
    requires
        0 < m <= n,
        first_fatal(s, m) is Some,
    ensures
        first_fatal(s, n) == first_fatal(s, m),
    decreases n - m,
{
    if n > m {
        lemma_first_fatal_stays(s, m, n - 1);
    }
}

} // verus!
