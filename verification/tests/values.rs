use kodiak::mpc_metric_dtype::{DTypeError, MPCMetricDType};

#[test]
fn add() {
    assert_eq!(
        MPCMetricDType::MPCInt32(1)
            .add(&MPCMetricDType::MPCInt32(2))
            .unwrap(),
        MPCMetricDType::MPCInt32(3)
    );
    assert_eq!(
        MPCMetricDType::MPCInt64(1)
            .add(&MPCMetricDType::MPCInt64(2))
            .unwrap(),
        MPCMetricDType::MPCInt64(3)
    );
    assert_eq!(
        MPCMetricDType::MPCUInt32(1)
            .add(&MPCMetricDType::MPCUInt32(2))
            .unwrap(),
        MPCMetricDType::MPCUInt32(3)
    );
    assert_eq!(
        MPCMetricDType::MPCUInt64(1)
            .add(&MPCMetricDType::MPCUInt64(2))
            .unwrap(),
        MPCMetricDType::MPCUInt64(3)
    );
    assert_eq!(
        MPCMetricDType::Vec(vec![
            MPCMetricDType::MPCInt32(1),
            MPCMetricDType::MPCInt32(1)
        ])
        .add(&MPCMetricDType::Vec(vec![
            MPCMetricDType::MPCInt32(2),
            MPCMetricDType::MPCInt32(2)
        ]))
        .unwrap(),
        MPCMetricDType::Vec(vec![
            MPCMetricDType::MPCInt32(3),
            MPCMetricDType::MPCInt32(3)
        ])
    );
    assert_eq!(
        MPCMetricDType::Vec(vec![
            MPCMetricDType::MPCInt32(1),
            MPCMetricDType::MPCInt32(1)
        ])
        .add(&MPCMetricDType::MPCInt32(2))
        .unwrap(),
        MPCMetricDType::Vec(vec![
            MPCMetricDType::MPCInt32(3),
            MPCMetricDType::MPCInt32(3)
        ])
    );
    assert_eq!(
        MPCMetricDType::MPCInt32(2)
            .add(&MPCMetricDType::Vec(vec![
                MPCMetricDType::MPCInt32(1),
                MPCMetricDType::MPCInt32(1)
            ]))
            .unwrap(),
        MPCMetricDType::Vec(vec![
            MPCMetricDType::MPCInt32(3),
            MPCMetricDType::MPCInt32(3)
        ])
    );
}

#[test]
fn sub() {
    assert_eq!(
        MPCMetricDType::MPCInt32(5)
            .sub(&MPCMetricDType::MPCInt32(2))
            .unwrap(),
        MPCMetricDType::MPCInt32(3)
    );
    assert_eq!(
        MPCMetricDType::MPCInt64(5)
            .sub(&MPCMetricDType::MPCInt64(2))
            .unwrap(),
        MPCMetricDType::MPCInt64(3)
    );
    assert_eq!(
        MPCMetricDType::MPCUInt32(5)
            .sub(&MPCMetricDType::MPCUInt32(2))
            .unwrap(),
        MPCMetricDType::MPCUInt32(3)
    );
    assert_eq!(
        MPCMetricDType::MPCUInt64(5)
            .sub(&MPCMetricDType::MPCUInt64(2))
            .unwrap(),
        MPCMetricDType::MPCUInt64(3)
    );
    assert_eq!(
        MPCMetricDType::Vec(vec![
            MPCMetricDType::MPCInt32(5),
            MPCMetricDType::MPCInt32(5)
        ])
        .sub(&MPCMetricDType::Vec(vec![
            MPCMetricDType::MPCInt32(2),
            MPCMetricDType::MPCInt32(2)
        ]))
        .unwrap(),
        MPCMetricDType::Vec(vec![
            MPCMetricDType::MPCInt32(3),
            MPCMetricDType::MPCInt32(3)
        ])
    );
    assert_eq!(
        MPCMetricDType::Vec(vec![
            MPCMetricDType::MPCInt32(5),
            MPCMetricDType::MPCInt32(5)
        ])
        .sub(&MPCMetricDType::MPCInt32(2))
        .unwrap(),
        MPCMetricDType::Vec(vec![
            MPCMetricDType::MPCInt32(3),
            MPCMetricDType::MPCInt32(3)
        ])
    );
    assert_eq!(
        MPCMetricDType::MPCInt32(4)
            .sub(&MPCMetricDType::Vec(vec![
                MPCMetricDType::MPCInt32(1),
                MPCMetricDType::MPCInt32(1)
            ]))
            .unwrap(),
        MPCMetricDType::Vec(vec![
            MPCMetricDType::MPCInt32(3),
            MPCMetricDType::MPCInt32(3)
        ])
    );
}

#[test]
fn mul() {
    assert_eq!(
        MPCMetricDType::MPCInt32(3)
            .mul(&MPCMetricDType::MPCInt32(2))
            .unwrap(),
        MPCMetricDType::MPCInt32(6)
    );
    assert_eq!(
        MPCMetricDType::MPCInt64(3)
            .mul(&MPCMetricDType::MPCInt64(2))
            .unwrap(),
        MPCMetricDType::MPCInt64(6)
    );
    assert_eq!(
        MPCMetricDType::MPCUInt32(3)
            .mul(&MPCMetricDType::MPCUInt32(2))
            .unwrap(),
        MPCMetricDType::MPCUInt32(6)
    );
    assert_eq!(
        MPCMetricDType::MPCUInt64(3)
            .mul(&MPCMetricDType::MPCUInt64(2))
            .unwrap(),
        MPCMetricDType::MPCUInt64(6)
    );
    assert_eq!(
        MPCMetricDType::Vec(vec![
            MPCMetricDType::MPCInt32(3),
            MPCMetricDType::MPCInt32(3)
        ])
        .mul(&MPCMetricDType::Vec(vec![
            MPCMetricDType::MPCInt32(2),
            MPCMetricDType::MPCInt32(2)
        ]))
        .unwrap(),
        MPCMetricDType::Vec(vec![
            MPCMetricDType::MPCInt32(6),
            MPCMetricDType::MPCInt32(6)
        ])
    );
    assert_eq!(
        MPCMetricDType::Vec(vec![
            MPCMetricDType::MPCInt32(3),
            MPCMetricDType::MPCInt32(3)
        ])
        .mul(&MPCMetricDType::MPCInt32(2))
        .unwrap(),
        MPCMetricDType::Vec(vec![
            MPCMetricDType::MPCInt32(6),
            MPCMetricDType::MPCInt32(6)
        ])
    );
    assert_eq!(
        MPCMetricDType::MPCInt32(3)
            .mul(&MPCMetricDType::Vec(vec![
                MPCMetricDType::MPCInt32(2),
                MPCMetricDType::MPCInt32(2)
            ]))
            .unwrap(),
        MPCMetricDType::Vec(vec![
            MPCMetricDType::MPCInt32(6),
            MPCMetricDType::MPCInt32(6)
        ])
    );
}

#[test]
fn div() {
    assert_eq!(
        MPCMetricDType::MPCInt32(6)
            .div(&MPCMetricDType::MPCInt32(2))
            .unwrap(),
        MPCMetricDType::MPCInt32(3)
    );
    assert_eq!(
        MPCMetricDType::MPCInt64(6)
            .div(&MPCMetricDType::MPCInt64(2))
            .unwrap(),
        MPCMetricDType::MPCInt64(3)
    );
    assert_eq!(
        MPCMetricDType::MPCUInt32(6)
            .div(&MPCMetricDType::MPCUInt32(2))
            .unwrap(),
        MPCMetricDType::MPCUInt32(3)
    );
    assert_eq!(
        MPCMetricDType::MPCUInt64(6)
            .div(&MPCMetricDType::MPCUInt64(2))
            .unwrap(),
        MPCMetricDType::MPCUInt64(3)
    );
    assert_eq!(
        MPCMetricDType::Vec(vec![
            MPCMetricDType::MPCInt32(6),
            MPCMetricDType::MPCInt32(6)
        ])
        .div(&MPCMetricDType::Vec(vec![
            MPCMetricDType::MPCInt32(2),
            MPCMetricDType::MPCInt32(2)
        ]))
        .unwrap(),
        MPCMetricDType::Vec(vec![
            MPCMetricDType::MPCInt32(3),
            MPCMetricDType::MPCInt32(3)
        ])
    );
    assert_eq!(
        MPCMetricDType::Vec(vec![
            MPCMetricDType::MPCInt32(6),
            MPCMetricDType::MPCInt32(6)
        ])
        .div(&MPCMetricDType::MPCInt32(2))
        .unwrap(),
        MPCMetricDType::Vec(vec![
            MPCMetricDType::MPCInt32(3),
            MPCMetricDType::MPCInt32(3)
        ])
    );
    assert_eq!(
        MPCMetricDType::MPCInt32(6)
            .div(&MPCMetricDType::Vec(vec![
                MPCMetricDType::MPCInt32(2),
                MPCMetricDType::MPCInt32(2)
            ]))
            .unwrap(),
        MPCMetricDType::Vec(vec![
            MPCMetricDType::MPCInt32(3),
            MPCMetricDType::MPCInt32(3)
        ])
    );
}

#[test]
fn take_inner_val() {
    assert_eq!(MPCMetricDType::MPCInt32(32).take_inner_i32(), Ok(32i32));
    assert_eq!(MPCMetricDType::MPCInt64(64).take_inner_i64(), Ok(64i64));
    assert_eq!(MPCMetricDType::MPCUInt32(32).take_inner_u32(), Ok(32u32));
    assert_eq!(MPCMetricDType::MPCUInt64(64).take_inner_u64(), Ok(64u64));
    assert_eq!(MPCMetricDType::MPCBool(true).take_inner_bool(), Ok(true));
    assert_eq!(
        MPCMetricDType::Vec(vec![MPCMetricDType::MPCBool(true)]).take_inner_vec(),
        Ok(vec![MPCMetricDType::MPCBool(true)])
    );
    assert!(MPCMetricDType::MPCUInt64(6).take_inner_i32().is_err());
}

#[test]
fn try_into() {
    assert_eq!(MPCMetricDType::MPCInt32(32).take_inner_i32(), Ok(32i32));
    assert_eq!(MPCMetricDType::MPCInt64(64).take_inner_i64(), Ok(64i64));
    assert_eq!(MPCMetricDType::MPCUInt32(32).take_inner_u32(), Ok(32u32));
    assert_eq!(MPCMetricDType::MPCUInt64(64).take_inner_u64(), Ok(64u64));
    assert_eq!(MPCMetricDType::MPCBool(true).take_inner_bool(), Ok(true));
    assert_eq!(
        MPCMetricDType::Vec(vec![MPCMetricDType::MPCBool(true)]).take_inner_vec(),
        Ok(vec![MPCMetricDType::MPCBool(true)])
    );
}

#[test]
fn mismatched_scalars_never_coerce() {
    assert_eq!(
        MPCMetricDType::MPCInt32(1).add(&MPCMetricDType::MPCUInt64(2)),
        Err(DTypeError::TypeMismatch)
    );
    assert_eq!(
        MPCMetricDType::MPCInt64(1).mul(&MPCMetricDType::MPCBool(true)),
        Err(DTypeError::TypeMismatch)
    );
}

#[test]
fn vector_lengths_must_match() {
    assert_eq!(
        MPCMetricDType::Vec(vec![
            MPCMetricDType::MPCInt32(1),
            MPCMetricDType::MPCInt32(2)
        ])
        .add(&MPCMetricDType::Vec(vec![MPCMetricDType::MPCInt32(1)])),
        Err(DTypeError::LengthMismatch)
    );
}

#[test]
fn bool_arithmetic_is_unsupported() {
    assert_eq!(
        MPCMetricDType::MPCBool(true).add(&MPCMetricDType::MPCBool(false)),
        Err(DTypeError::UnsupportedOperation)
    );
    assert_eq!(
        MPCMetricDType::MPCUInt32(1).and(&MPCMetricDType::MPCUInt32(1)),
        Err(DTypeError::UnsupportedOperation)
    );
}

#[test]
fn division_by_zero_is_reported() {
    assert_eq!(
        MPCMetricDType::MPCInt32(6).div(&MPCMetricDType::MPCInt32(0)),
        Err(DTypeError::DivideByZero)
    );
    assert_eq!(
        MPCMetricDType::MPCUInt64(6).div(&MPCMetricDType::MPCUInt64(0)),
        Err(DTypeError::DivideByZero)
    );
}

#[test]
fn arithmetic_wraps_on_overflow() {
    assert_eq!(
        MPCMetricDType::MPCInt32(i32::MAX)
            .add(&MPCMetricDType::MPCInt32(1))
            .unwrap(),
        MPCMetricDType::MPCInt32(i32::MIN)
    );
    assert_eq!(
        MPCMetricDType::MPCUInt32(0)
            .sub(&MPCMetricDType::MPCUInt32(1))
            .unwrap(),
        MPCMetricDType::MPCUInt32(u32::MAX)
    );
    assert_eq!(
        MPCMetricDType::MPCInt32(i32::MIN)
            .div(&MPCMetricDType::MPCInt32(-1))
            .unwrap(),
        MPCMetricDType::MPCInt32(i32::MIN)
    );
}

#[test]
fn comparisons_yield_booleans() {
    assert_eq!(
        MPCMetricDType::MPCInt32(1)
            .lt(&MPCMetricDType::MPCInt32(2))
            .unwrap(),
        MPCMetricDType::MPCBool(true)
    );
    assert_eq!(
        MPCMetricDType::MPCUInt64(5)
            .gte(&MPCMetricDType::MPCUInt64(5))
            .unwrap(),
        MPCMetricDType::MPCBool(true)
    );
    assert_eq!(
        MPCMetricDType::MPCInt64(3)
            .gt(&MPCMetricDType::MPCInt64(3))
            .unwrap(),
        MPCMetricDType::MPCBool(false)
    );
    assert_eq!(
        MPCMetricDType::MPCInt64(3)
            .lte(&MPCMetricDType::MPCInt64(3))
            .unwrap(),
        MPCMetricDType::MPCBool(true)
    );
    assert_eq!(
        MPCMetricDType::MPCInt32(2)
            .eq_values(&MPCMetricDType::Vec(vec![
                MPCMetricDType::MPCInt32(2),
                MPCMetricDType::MPCInt32(3)
            ]))
            .unwrap(),
        MPCMetricDType::Vec(vec![
            MPCMetricDType::MPCBool(true),
            MPCMetricDType::MPCBool(false)
        ])
    );
}

#[test]
fn logical_operations_on_booleans() {
    assert_eq!(
        MPCMetricDType::MPCBool(true)
            .and(&MPCMetricDType::MPCBool(false))
            .unwrap(),
        MPCMetricDType::MPCBool(false)
    );
    assert_eq!(
        MPCMetricDType::MPCBool(true)
            .or(&MPCMetricDType::MPCBool(false))
            .unwrap(),
        MPCMetricDType::MPCBool(true)
    );
    assert_eq!(
        MPCMetricDType::MPCBool(true)
            .xor(&MPCMetricDType::MPCBool(true))
            .unwrap(),
        MPCMetricDType::MPCBool(false)
    );
}

#[test]
fn nested_vectors_broadcast() {
    // A scalar broadcasts into a vector of vectors, element by element.
    let nested = MPCMetricDType::Vec(vec![
        MPCMetricDType::Vec(vec![MPCMetricDType::MPCInt32(1)]),
        MPCMetricDType::Vec(vec![MPCMetricDType::MPCInt32(2)]),
    ]);
    assert_eq!(
        MPCMetricDType::MPCInt32(10).add(&nested).unwrap(),
        MPCMetricDType::Vec(vec![
            MPCMetricDType::Vec(vec![MPCMetricDType::MPCInt32(11)]),
            MPCMetricDType::Vec(vec![MPCMetricDType::MPCInt32(12)]),
        ])
    );
}
