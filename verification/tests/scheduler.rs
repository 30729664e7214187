use kodiak::dag::{Dag, DagError};
use kodiak::mpc_view::MPCView;
use kodiak::mpc_view_builder::MPCViewBuilder;
use kodiak::mpc_role::MPCRole;
use kodiak::sample_columns::{TestEnum, TestEnumCyclic};

#[test]
fn dag_next_node() {
    let mpc_view = MPCView::new(
        vec![TestEnum::Variant1, TestEnum::Variant2],
        vec![TestEnum::Variant3, TestEnum::Variant4],
        vec![TestEnum::Variant5, TestEnum::Variant6],
        vec![],
    );

    let mut dag = Dag::from_mpc_view(mpc_view).unwrap();
    assert_eq!(dag.next_column(), Some(TestEnum::Variant1));
    assert_eq!(dag.next_column(), Some(TestEnum::Variant2));
    assert_eq!(dag.next_column(), Some(TestEnum::Variant3));
    assert_eq!(dag.next_column(), Some(TestEnum::Variant4));
    assert_eq!(dag.next_column(), Some(TestEnum::Variant5));
    assert_eq!(dag.next_column(), Some(TestEnum::Variant6));
    assert_eq!(dag.next_column(), None);
    dag.reset();
    assert_eq!(dag.next_column(), Some(TestEnum::Variant1));
    assert_eq!(dag.next_column(), Some(TestEnum::Variant2));
    assert_eq!(dag.next_column(), Some(TestEnum::Variant3));
    assert_eq!(dag.next_column(), Some(TestEnum::Variant4));
    assert_eq!(dag.next_column(), Some(TestEnum::Variant5));
    assert_eq!(dag.next_column(), Some(TestEnum::Variant6));

    let mpc_view = MPCView::new(
        vec![TestEnum::Variant2, TestEnum::Variant1],
        vec![TestEnum::Variant3, TestEnum::Variant4],
        vec![TestEnum::Variant6, TestEnum::Variant5],
        vec![],
    );

    let mut dag = Dag::from_mpc_view(mpc_view).unwrap();
    assert_eq!(dag.next_column(), Some(TestEnum::Variant2));
    assert_eq!(dag.next_column(), Some(TestEnum::Variant1));
    assert_eq!(dag.next_column(), Some(TestEnum::Variant3));
    assert_eq!(dag.next_column(), Some(TestEnum::Variant4));
    assert_eq!(dag.next_column(), Some(TestEnum::Variant6));
    assert_eq!(dag.next_column(), Some(TestEnum::Variant5));
    assert_eq!(dag.next_column(), None);
    dag.reset();
    assert_eq!(dag.next_column(), Some(TestEnum::Variant2));
    assert_eq!(dag.next_column(), Some(TestEnum::Variant1));
    assert_eq!(dag.next_column(), Some(TestEnum::Variant3));
    assert_eq!(dag.next_column(), Some(TestEnum::Variant4));
    assert_eq!(dag.next_column(), Some(TestEnum::Variant6));
    assert_eq!(dag.next_column(), Some(TestEnum::Variant5));
}

#[test]
fn dag_dependencies_come_first() {
    // Dependencies before dependents, even when declared back to front.
    let mpc_view = MPCView::new(
        vec![TestEnum::Variant2, TestEnum::Variant1],
        vec![TestEnum::Variant5, TestEnum::Variant4, TestEnum::Variant3],
        vec![TestEnum::Variant6],
        vec![],
    );
    let mut dag = Dag::from_mpc_view(mpc_view).unwrap();
    let mut order = Vec::new();
    while let Some(c) = dag.next_column() {
        order.push(c);
    }
    assert_eq!(
        order,
        vec![
            TestEnum::Variant2,
            TestEnum::Variant1,
            TestEnum::Variant4,
            TestEnum::Variant3,
            TestEnum::Variant5,
            TestEnum::Variant6,
        ]
    );
}

#[test]
fn dag_rebuild_is_reproducible() {
    let build = || {
        let view = MPCView::new(
            vec![TestEnum::Variant1, TestEnum::Variant2],
            vec![TestEnum::Variant3, TestEnum::Variant4],
            vec![TestEnum::Variant5, TestEnum::Variant6],
            vec![],
        );
        let mut dag = Dag::from_mpc_view(view).unwrap();
        let mut order = Vec::new();
        while let Some(c) = dag.next_column() {
            order.push(c);
        }
        order
    };
    let first = build();
    let second = build();
    assert_eq!(first, second);
}

#[test]
fn dag_detects_cycle() {
    let view = MPCView::new(
        vec![],
        vec![TestEnumCyclic::VariantA, TestEnumCyclic::VariantB],
        vec![],
        vec![],
    );
    assert!(matches!(
        Dag::from_mpc_view(view),
        Err(DagError::CycleDetected)
    ));
}

#[test]
fn dag_detects_missing_dependency() {
    // Variant3 depends on Variant1, which is not part of the selection.
    let view = MPCView::new(vec![TestEnum::Variant3], vec![], vec![], vec![]);
    assert!(matches!(
        Dag::from_mpc_view(view),
        Err(DagError::MissingDependency)
    ));
}

#[test]
fn dag_next_columns_reserved() {
    let view = MPCView::new(vec![TestEnum::Variant1], vec![], vec![], vec![]);
    let mut dag = Dag::from_mpc_view(view).unwrap();
    assert!(dag.next_columns().is_none());
}

#[test]
fn view_builder_matches_direct_construction() {
    let mut builder = MPCViewBuilder::new();
    builder.with_input_column(MPCRole::Publisher, TestEnum::Variant1);
    builder.with_input_column(MPCRole::Partner, TestEnum::Variant2);
    builder.with_helper_column(TestEnum::Variant3);
    builder.with_metric(TestEnum::Variant6);
    builder.with_grouping_set(vec![TestEnum::Variant1]);
    let view = builder.build();
    let mut dag = Dag::from_mpc_view(view).unwrap();
    assert_eq!(dag.next_column(), Some(TestEnum::Variant1));
    assert_eq!(dag.next_column(), Some(TestEnum::Variant2));
    assert_eq!(dag.next_column(), Some(TestEnum::Variant3));
    assert_eq!(dag.next_column(), Some(TestEnum::Variant6));
    assert_eq!(dag.next_column(), None);
}
