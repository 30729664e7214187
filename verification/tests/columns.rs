use kodiak::column_metadata::ColumnMetadata;
use kodiak::mpc_metric_dtype::MPCMetricDType;
use kodiak::mpc_role::MPCRole;
use kodiak::row::Row;
use kodiak::sample_columns::{TestEnum, TestEnumWithAuto};

#[test]
fn name_generation() {
    assert_eq!(TestEnum::Variant1.name(), "Variant1");
    assert_eq!(TestEnum::Variant2.name(), "Variant2");
    assert_eq!(TestEnum::Variant3.name(), "Variant3");
    assert_eq!(TestEnum::Variant4.name(), "Variant4");
}

#[test]
fn dependency_generation() {
    assert_eq!(TestEnum::Variant1.dependencies(), vec![]);
    assert_eq!(TestEnum::Variant2.dependencies(), vec![]);
    assert_eq!(TestEnum::Variant3.dependencies(), vec![TestEnum::Variant1]);
    assert_eq!(TestEnum::Variant4.dependencies(), vec![TestEnum::Variant1]);
    assert_eq!(
        TestEnum::Variant5.dependencies(),
        vec![TestEnum::Variant3, TestEnum::Variant4]
    );
    assert_eq!(
        TestEnum::Variant6.dependencies(),
        vec![TestEnum::Variant2, TestEnum::Variant3]
    );
}

#[test]
fn from_str() {
    assert_eq!(TestEnum::Variant1, TestEnum::from_str("Variant1").unwrap());
    assert!(TestEnum::from_str("VariantDNE").is_err());
    assert!(TestEnum::from_str("").is_err());
}

#[test]
fn auto_from_row() {
    let r = Row::<TestEnumWithAuto>::new();
    assert_eq!(
        TestEnumWithAuto::Variant1.from_row(&r).unwrap(),
        MPCMetricDType::MPCInt64(1)
    );
    assert_eq!(
        TestEnumWithAuto::Variant2.from_row(&r).unwrap(),
        MPCMetricDType::MPCInt64(4)
    );
}

#[test]
fn auto_from_input() {
    let inp = "";
    assert_eq!(
        TestEnumWithAuto::Variant1.from_input(inp).unwrap(),
        MPCMetricDType::MPCInt64(2)
    );
    assert_eq!(
        TestEnumWithAuto::Variant2.from_input(inp).unwrap(),
        MPCMetricDType::MPCInt64(5)
    );
}

#[test]
fn auto_aggregate() {
    let rows = vec![Row::<TestEnumWithAuto>::new()];
    assert_eq!(
        TestEnumWithAuto::Variant1.aggregate(&rows).unwrap(),
        MPCMetricDType::MPCInt64(3)
    );
    assert_eq!(
        TestEnumWithAuto::Variant2.aggregate(&rows).unwrap(),
        MPCMetricDType::MPCInt64(6)
    );
}

#[test]
fn from_input_parses_decimals() {
    assert_eq!(
        TestEnum::Variant1.from_input("14").unwrap(),
        MPCMetricDType::MPCInt64(14)
    );
    assert_eq!(
        TestEnum::Variant1.from_input("-7").unwrap(),
        MPCMetricDType::MPCInt64(-7)
    );
    assert_eq!(
        TestEnum::Variant1.from_input("9223372036854775807").unwrap(),
        MPCMetricDType::MPCInt64(i64::MAX)
    );
    assert_eq!(
        TestEnum::Variant1.from_input("-9223372036854775808").unwrap(),
        MPCMetricDType::MPCInt64(i64::MIN)
    );
    assert!(TestEnum::Variant1.from_input("").is_none());
    assert!(TestEnum::Variant1.from_input("-").is_none());
    assert!(TestEnum::Variant1.from_input("12a").is_none());
    assert!(TestEnum::Variant1.from_input("9223372036854775808").is_none());
}

#[test]
fn from_input_reveal_round_trip() {
    // Values written in their canonical decimal form come back unchanged.
    for x in [0i64, 1, -1, 14, -14, 1000000, i64::MAX, i64::MIN] {
        let text = format!("{}", x);
        let value = TestEnum::Variant2.from_input(&text).unwrap();
        assert_eq!(value.take_inner_i64(), Ok(x));
    }
}

#[test]
fn role_from_str() {
    assert!(matches!(MPCRole::from_str("publisher"), Ok(MPCRole::Publisher)));
    assert!(matches!(MPCRole::from_str("PARTNER"), Ok(MPCRole::Partner)));
    assert!(matches!(MPCRole::from_str("Publisher"), Ok(MPCRole::Publisher)));
    let e = MPCRole::from_str("auditor").unwrap_err();
    assert_eq!(e.text(), "auditor");
}

#[test]
fn row_insert_and_get() {
    let mut row: Row<TestEnum> = Row::new();
    assert!(row.get_data(&TestEnum::Variant1).is_none());
    assert_eq!(row.insert(TestEnum::Variant1, MPCMetricDType::MPCInt64(5)), None);
    assert_eq!(
        row.get_data(&TestEnum::Variant1),
        Some(&MPCMetricDType::MPCInt64(5))
    );
    // The last write wins, and the previous value comes back.
    assert_eq!(
        row.insert(TestEnum::Variant1, MPCMetricDType::MPCInt64(9)),
        Some(MPCMetricDType::MPCInt64(5))
    );
    assert_eq!(
        row.get_data(&TestEnum::Variant1),
        Some(&MPCMetricDType::MPCInt64(9))
    );
    assert!(row.get_data(&TestEnum::Variant2).is_none());
}
