use vstd::prelude::*;

use crate::query::{
    column_joined, fetch_error, joins, match_in, normalized_answer, view_of, ComponentAnswer,
    EntityView,
};
use crate::error::QueryError;
use crate::table::stable_sort_by;

verus! {

/// A value is found among the first `n` rows at `key` exactly when one of
/// those rows has that key, and what is found is the value of such a row.
pub proof fn lemma_match_in_exact<V>(tk: Seq<u64>, tv: Seq<V>, key: u64, n: int)
    requires
        0 <= n <= tk.len(),
        tk.len() == tv.len(),
    ensures
        match_in(tk, tv, key, n) is Some <==> exists|j: int| 0 <= j < n && tk[j] == key,
        match_in(tk, tv, key, n) matches Some(v) ==> exists|j: int|
            0 <= j < n && tk[j] == key && tv[j] == v,
    decreases n,
{
    if n > 0 {
        lemma_match_in_exact(tk, tv, key, n - 1);
        if tk[n - 1] != key {
            assert forall|j: int| 0 <= j < n && tk[j] == key implies 0 <= j < n - 1 && tk[j]
                == key by {}
        }
    }
}

/// Join exactness: a row of a joined column holds a value if and only if the
/// joined table has a row whose instance key equals that row's key, and the
/// value is taken from such a row, never from a row with another key.
pub proof fn lemma_join_exact<V>(cells: Seq<Option<V>>, keys: Seq<u64>, tk: Seq<u64>, tv: Seq<V>)
    requires
        tk.len() == tv.len(),
        joins(cells, keys, tk, tv),
    ensures
        forall|i: int|
            0 <= i < keys.len() ==> ((#[trigger] cells[i]) is Some <==> exists|j: int|
                0 <= j < tk.len() && tk[j] == keys[i]),
        forall|i: int|
            0 <= i < keys.len() && (#[trigger] cells[i]) is Some ==> exists|j: int|
                0 <= j < tk.len() && tk[j] == keys[i] && tv[j] == cells[i].unwrap(),
{
    assert forall|i: int| 0 <= i < keys.len() implies ((#[trigger] cells[i]) is Some
        <==> exists|j: int| 0 <= j < tk.len() && tk[j] == keys[i]) && (cells[i] is Some
        ==> exists|j: int| 0 <= j < tk.len() && tk[j] == keys[i] && tv[j] == cells[i].unwrap()) by {
        lemma_match_in_exact(tk, tv, keys[i], tk.len() as int);
    }
}

/// Row count: a joined view has exactly one row per instance of the
/// primary component, and every requested component's column has that many
/// cells, whatever the other components hold.
pub proof fn lemma_row_count<V>(
    view: EntityView<V>,
    primary: ComponentAnswer<V>,
    comps: Seq<ComponentAnswer<V>>,
)
    requires
        view_of(view, primary, comps),
    ensures
        primary.found is Some,
        primary.found.unwrap().values is Some,
        view.primary.values@.len() == primary.found.unwrap().values.unwrap()@.len(),
        view.primary.instances@.len() == view.primary.values@.len(),
        view.columns@.len() == comps.len(),
        forall|i: int|
            0 <= i < comps.len() ==> (#[trigger] view.columns@[i]).cells@.len()
                == view.primary.values@.len(),
{
    let c = primary.found.unwrap();
    let v = c.values.unwrap();
    assert(normalized_answer(view.primary.instances@, view.primary.values@, primary));
    if let Some(k) = c.instances {
        assert(crate::table::stably_sorted_from(
            view.primary.instances@,
            view.primary.values@,
            k@,
            v@,
        ));
        let p = choose|p: Seq<int>|
            #[trigger] stable_sort_by(p, k@, v@, view.primary.instances@, view.primary.values@);
    }
    assert forall|i: int| 0 <= i < comps.len() implies (#[trigger] view.columns@[i]).cells@.len()
        == view.primary.values@.len() by {
        assert(column_joined(view.columns@[i], view.primary.instances@, comps[i]));
    }
}

/// Missing component: when the store has no data for a requested component,
/// the query still succeeds with that component's column null on every row.
pub proof fn lemma_absent_column_null<V>(
    view: EntityView<V>,
    primary: ComponentAnswer<V>,
    comps: Seq<ComponentAnswer<V>>,
    i: int,
)
    requires
        view_of(view, primary, comps),
        0 <= i < comps.len(),
        comps[i].found.is_none(),
    ensures
        view.columns@[i].name@ == comps[i].name@,
        view.columns@[i].cells@.len() == view.primary.instances@.len(),
        forall|r: int|
            0 <= r < view.primary.instances@.len() ==> (#[trigger] view.columns@[i].cells@[r]).is_none(),
{
    assert(column_joined(view.columns@[i], view.primary.instances@, comps[i]));
    assert(fetch_error(comps[i]) == Some(QueryError::PrimaryNotFound));
}

} // verus!
