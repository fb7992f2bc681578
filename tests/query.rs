use re_query::{
    add_instances_and_sort_if_needed, get_component_with_instances, join_cells,
    query_entity_with_primary, ComponentAnswer, ComponentData, ComponentTable, QueryError,
    StoreColumns,
};

#[derive(Clone, Copy, Debug, PartialEq)]
enum Val {
    Point(f32, f32),
    Color(u32),
}

fn points_answer() -> ComponentAnswer<Val> {
    ComponentAnswer {
        name: "point2d".to_string(),
        found: Some(StoreColumns {
            instances: Some(vec![42, 96]),
            values: Some(vec![Val::Point(1.0, 2.0), Val::Point(3.0, 4.0)]),
        }),
    }
}

fn colors_answer() -> ComponentAnswer<Val> {
    ComponentAnswer {
        name: "colorrgba".to_string(),
        found: Some(StoreColumns {
            instances: Some(vec![96]),
            values: Some(vec![Val::Color(0xff000000)]),
        }),
    }
}

fn absent(name: &str) -> ComponentAnswer<Val> {
    ComponentAnswer { name: name.to_string(), found: None }
}

#[test]
fn component_with_instances() {
    let answer = points_answer();
    let data = get_component_with_instances(&answer.name, &answer.found).unwrap();
    assert_eq!(data.name, "point2d");
    assert_eq!(data.instances, Some(vec![42, 96]));
    assert_eq!(data.values, vec![Val::Point(1.0, 2.0), Val::Point(3.0, 4.0)]);
}

#[test]
fn fetch_absent_is_primary_not_found() {
    let r = get_component_with_instances::<Val>(&"point2d".to_string(), &None);
    assert!(matches!(r, Err(QueryError::PrimaryNotFound)));
}

#[test]
fn fetch_without_value_column_is_bad_access() {
    let found: Option<StoreColumns<Val>> =
        Some(StoreColumns { instances: Some(vec![1, 2]), values: None });
    let r = get_component_with_instances(&"point2d".to_string(), &found);
    assert!(matches!(r, Err(QueryError::BadAccess)));
}

#[test]
fn fetch_with_mismatched_columns_is_table_error() {
    let found = Some(StoreColumns { instances: Some(vec![1, 2, 3]), values: Some(vec![Val::Color(1)]) });
    let r = get_component_with_instances(&"colorrgba".to_string(), &found);
    assert!(matches!(r, Err(QueryError::TableError)));
}

#[test]
fn fetch_without_keys_keeps_keys_absent() {
    let found = Some(StoreColumns { instances: None, values: Some(vec![Val::Color(7), Val::Color(8)]) });
    let data = get_component_with_instances(&"colorrgba".to_string(), &found).unwrap();
    assert_eq!(data.instances, None);
    assert_eq!(data.values, vec![Val::Color(7), Val::Color(8)]);
}

#[test]
fn implicit_keys_are_row_ordinals() {
    let data = ComponentData {
        name: "colorrgba".to_string(),
        instances: None,
        values: vec![Val::Color(5), Val::Color(3), Val::Color(9)],
    };
    let t = add_instances_and_sort_if_needed(&data).unwrap();
    assert_eq!(t.instances, vec![0, 1, 2]);
    assert_eq!(t.values, vec![Val::Color(5), Val::Color(3), Val::Color(9)]);
    assert_eq!(t.num_rows(), 3);
}

#[test]
fn implicit_keys_of_empty_table() {
    let data: ComponentData<Val> =
        ComponentData { name: "colorrgba".to_string(), instances: None, values: vec![] };
    let t = add_instances_and_sort_if_needed(&data).unwrap();
    assert!(t.instances.is_empty());
    assert!(t.values.is_empty());
}

#[test]
fn explicit_keys_out_of_order_are_sorted() {
    let data = ComponentData {
        name: "point2d".to_string(),
        instances: Some(vec![96, 42]),
        values: vec![Val::Point(3.0, 4.0), Val::Point(1.0, 2.0)],
    };
    let t = add_instances_and_sort_if_needed(&data).unwrap();
    assert_eq!(t.name, "point2d");
    assert_eq!(t.instances, vec![42, 96]);
    assert_eq!(t.values, vec![Val::Point(1.0, 2.0), Val::Point(3.0, 4.0)]);
}

#[test]
fn sort_is_stable_on_equal_keys() {
    let data = ComponentData {
        name: "colorrgba".to_string(),
        instances: Some(vec![5, 1, 5, 0, 1]),
        values: vec![Val::Color(10), Val::Color(11), Val::Color(12), Val::Color(13), Val::Color(14)],
    };
    let t = add_instances_and_sort_if_needed(&data).unwrap();
    assert_eq!(t.instances, vec![0, 1, 1, 5, 5]);
    assert_eq!(
        t.values,
        vec![Val::Color(13), Val::Color(11), Val::Color(14), Val::Color(10), Val::Color(12)]
    );
}

#[test]
fn join_cells_match_exact_keys_only() {
    let t = ComponentTable {
        name: "colorrgba".to_string(),
        instances: vec![10, 20, 30],
        values: vec![Val::Color(1), Val::Color(2), Val::Color(3)],
    };
    let cells = join_cells(&vec![5, 10, 25, 30, 40], &t);
    assert_eq!(cells, vec![None, Some(Val::Color(1)), None, Some(Val::Color(3)), None]);
}

#[test]
fn join_cells_take_last_of_equal_keys() {
    let t = ComponentTable {
        name: "colorrgba".to_string(),
        instances: vec![7, 7],
        values: vec![Val::Color(1), Val::Color(2)],
    };
    let cells = join_cells(&vec![7], &t);
    assert_eq!(cells, vec![Some(Val::Color(2))]);
}

#[test]
fn query_joins_secondary_by_key() {
    let view = query_entity_with_primary(&points_answer(), &vec![colors_answer()]).unwrap();
    assert_eq!(view.num_rows(), 2);
    assert_eq!(view.primary.instances, vec![42, 96]);
    assert_eq!(view.primary.values, vec![Val::Point(1.0, 2.0), Val::Point(3.0, 4.0)]);
    assert_eq!(view.columns.len(), 1);
    assert_eq!(view.columns[0].name, "colorrgba");
    assert_eq!(view.columns[0].cells, vec![None, Some(Val::Color(0xff000000))]);
}

#[test]
fn query_missing_secondary_gives_null_column() {
    let view = query_entity_with_primary(&points_answer(), &vec![absent("colorrgba")]).unwrap();
    assert_eq!(view.num_rows(), 2);
    assert_eq!(view.columns.len(), 1);
    assert_eq!(view.columns[0].name, "colorrgba");
    assert_eq!(view.columns[0].cells, vec![None, None]);
}

#[test]
fn query_missing_primary_fails() {
    let r = query_entity_with_primary(&absent("point2d"), &vec![colors_answer()]);
    assert!(matches!(r, Err(QueryError::PrimaryNotFound)));
}

#[test]
fn query_fatal_secondary_aborts() {
    let bad = ComponentAnswer {
        name: "radius".to_string(),
        found: Some(StoreColumns { instances: Some(vec![1]), values: None }),
    };
    let r = query_entity_with_primary(&points_answer(), &vec![colors_answer(), bad, absent("x")]);
    assert!(matches!(r, Err(QueryError::BadAccess)));
}

#[test]
fn query_first_fatal_error_wins() {
    let mismatched = ComponentAnswer {
        name: "radius".to_string(),
        found: Some(StoreColumns { instances: Some(vec![1, 2]), values: Some(vec![Val::Color(1)]) }),
    };
    let no_values = ComponentAnswer {
        name: "label".to_string(),
        found: Some(StoreColumns { instances: None, values: None }),
    };
    let r = query_entity_with_primary(&points_answer(), &vec![absent("x"), mismatched, no_values]);
    assert!(matches!(r, Err(QueryError::TableError)));
}

#[test]
fn query_row_count_is_fixed_by_primary() {
    let many = ComponentAnswer {
        name: "colorrgba".to_string(),
        found: Some(StoreColumns {
            instances: Some(vec![1, 42, 50, 96, 100]),
            values: Some(vec![
                Val::Color(1),
                Val::Color(2),
                Val::Color(3),
                Val::Color(4),
                Val::Color(5),
            ]),
        }),
    };
    let view = query_entity_with_primary(
        &points_answer(),
        &vec![many, absent("radius"), colors_answer()],
    )
    .unwrap();
    assert_eq!(view.num_rows(), 2);
    assert_eq!(view.columns.len(), 3);
    for c in &view.columns {
        assert_eq!(c.cells.len(), 2);
    }
    assert_eq!(view.columns[0].cells, vec![Some(Val::Color(2)), Some(Val::Color(4))]);
    assert_eq!(view.columns[1].cells, vec![None, None]);
    assert_eq!(view.columns[2].cells, vec![None, Some(Val::Color(0xff000000))]);
}

#[test]
fn query_primary_out_of_order_and_implicit_secondary() {
    let primary = ComponentAnswer {
        name: "point2d".to_string(),
        found: Some(StoreColumns {
            instances: Some(vec![2, 0]),
            values: Some(vec![Val::Point(3.0, 4.0), Val::Point(1.0, 2.0)]),
        }),
    };
    let implicit = ComponentAnswer {
        name: "colorrgba".to_string(),
        found: Some(StoreColumns {
            instances: None,
            values: Some(vec![Val::Color(10), Val::Color(11), Val::Color(12)]),
        }),
    };
    let view = query_entity_with_primary(&primary, &vec![implicit]).unwrap();
    assert_eq!(view.primary.instances, vec![0, 2]);
    assert_eq!(view.primary.values, vec![Val::Point(1.0, 2.0), Val::Point(3.0, 4.0)]);
    assert_eq!(view.columns[0].cells, vec![Some(Val::Color(10)), Some(Val::Color(12))]);
}

#[test]
fn query_with_no_secondaries() {
    let view = query_entity_with_primary(&points_answer(), &vec![]).unwrap();
    assert_eq!(view.num_rows(), 2);
    assert!(view.columns.is_empty());
}

#[test]
fn error_messages() {
    assert_eq!(QueryError::PrimaryNotFound.message(), "Could not find primary");
    assert_eq!(QueryError::BadAccess.message(), "Tried to access a column that doesn't exist");
    assert!(!QueryError::TableError.message().is_empty());
}
