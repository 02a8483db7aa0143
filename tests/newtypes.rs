use macro_attr::newtype::{BinaryOp, Newtype, OperandShape, OperatorArgs, UnaryOp};
use macro_attr::structs::{TypeIndex, TypeIndexMut};

type Dummy = Newtype<i32>;

#[test]
fn arith_test_arith() {
    let a = Dummy::from(4);
    let b = Dummy::from(7);

    assert_eq!(a.binary(BinaryOp::Add, b), Dummy::from(4 + 7));
    assert_eq!((&a).binary_ref(BinaryOp::Add, &b), Dummy::from(4 + 7));
    assert_eq!(a.binary_rhs(BinaryOp::Add, 7), Dummy::from(4 + 7));
    assert_eq!((&a).binary_rhs(BinaryOp::Add, 7), Dummy::from(4 + 7));
    assert_eq!(a.binary(BinaryOp::BitAnd, b), Dummy::from(4 & 7));
    assert_eq!((&a).binary_ref(BinaryOp::BitAnd, &b), Dummy::from(4 & 7));
    assert_eq!(a.binary(BinaryOp::BitOr, b), Dummy::from(4 | 7));
    assert_eq!((&a).binary_ref(BinaryOp::BitOr, &b), Dummy::from(4 | 7));
    assert_eq!(a.binary(BinaryOp::BitXor, b), Dummy::from(4 ^ 7));
    assert_eq!((&a).binary_ref(BinaryOp::BitXor, &b), Dummy::from(4 ^ 7));
    assert_eq!(a.binary(BinaryOp::Div, b), Dummy::from(4 / 7));
    assert_eq!((&a).binary_ref(BinaryOp::Div, &b), Dummy::from(4 / 7));
    assert_eq!(a.binary(BinaryOp::Mul, b), Dummy::from(4 * 7));
    assert_eq!((&a).binary_ref(BinaryOp::Mul, &b), Dummy::from(4 * 7));
    assert_eq!(a.binary(BinaryOp::Rem, b), Dummy::from(4 % 7));
    assert_eq!((&a).binary_ref(BinaryOp::Rem, &b), Dummy::from(4 % 7));
    assert_eq!(a.binary(BinaryOp::Sub, b), Dummy::from(4 - 7));
    assert_eq!((&a).binary_ref(BinaryOp::Sub, &b), Dummy::from(4 - 7));

    assert_eq!(a.binary(BinaryOp::Shl, b), Dummy::from(4 << 7));
    assert_eq!((&a).binary_ref(BinaryOp::Shl, &b), Dummy::from(4 << 7));
    assert_eq!(a.binary_rhs(BinaryOp::Shl, 7), Dummy::from(4 << 7));

    assert_eq!(a.binary(BinaryOp::Shr, b), Dummy::from(4 >> 7));
    assert_eq!((&a).binary_ref(BinaryOp::Shr, &b), Dummy::from(4 >> 7));
    assert_eq!(a.binary_rhs(BinaryOp::Shr, 7), Dummy::from(4 >> 7));

    assert_eq!(a.unary(UnaryOp::Neg), Dummy::from(-4));
    assert_eq!((&a).unary(UnaryOp::Neg), Dummy::from(-4));
    assert_eq!(a.unary(UnaryOp::Not), Dummy::from(!4));
    assert_eq!((&a).unary(UnaryOp::Not), Dummy::from(!4));
}

#[test]
fn forwarding_matches_inner_operators() {
    let values = [-9, -1, 0, 1, 5, 12];
    for &x in values.iter() {
        for &y in values.iter() {
            let (a, b) = (Dummy::from(x), Dummy::from(y));
            assert_eq!(a.binary(BinaryOp::Add, b), Dummy::from(x + y));
            assert_eq!(a.binary(BinaryOp::Sub, b), Dummy::from(x - y));
            assert_eq!(a.binary(BinaryOp::Mul, b), Dummy::from(x * y));
            assert_eq!(a.binary(BinaryOp::BitAnd, b), Dummy::from(x & y));
            assert_eq!(a.binary(BinaryOp::BitOr, b), Dummy::from(x | y));
            assert_eq!(a.binary(BinaryOp::BitXor, b), Dummy::from(x ^ y));
            if y != 0 {
                assert_eq!(a.binary(BinaryOp::Div, b), Dummy::from(x / y));
                assert_eq!(a.binary(BinaryOp::Rem, b), Dummy::from(x % y));
            }
            if (0..32).contains(&y) {
                assert_eq!(a.binary(BinaryOp::Shl, b), Dummy::from(x << y));
                assert_eq!(a.binary(BinaryOp::Shr, b), Dummy::from(x >> y));
            }
        }
        assert_eq!(Dummy::from(x).unary(UnaryOp::Neg), Dummy::from(-x));
        assert_eq!(Dummy::from(x).unary(UnaryOp::Not), Dummy::from(!x));
    }
    assert_eq!(Dummy::from(-7).binary(BinaryOp::Div, Dummy::from(2)), Dummy::from(-3));
    assert_eq!(Dummy::from(-7).binary(BinaryOp::Rem, Dummy::from(2)), Dummy::from(-1));
    assert_eq!(Dummy::from(-8).binary(BinaryOp::Shr, Dummy::from(1)), Dummy::from(-4));
}

#[test]
fn test_arith_assign() {
    let a = Dummy::from(4);
    let b = Dummy::from(7);
    let assign = |op: BinaryOp, rhs: &Dummy| {
        let mut x = a;
        x.binary_assign(op, rhs);
        x
    };
    let assign_rhs = |op: BinaryOp, rhs: i32| {
        let mut x = a;
        x.binary_assign_rhs(op, rhs);
        x
    };

    assert_eq!(assign(BinaryOp::Add, &b), Dummy::from(4 + 7));
    assert_eq!(assign(BinaryOp::Add, &b), Dummy::from(4 + 7));
    assert_eq!(assign_rhs(BinaryOp::Add, 7), Dummy::from(4 + 7));
    assert_eq!(assign(BinaryOp::BitAnd, &b), Dummy::from(4 & 7));
    assert_eq!(assign(BinaryOp::BitOr, &b), Dummy::from(4 | 7));
    assert_eq!(assign(BinaryOp::BitXor, &b), Dummy::from(4 ^ 7));
    assert_eq!(assign(BinaryOp::Div, &b), Dummy::from(4 / 7));
    assert_eq!(assign(BinaryOp::Mul, &b), Dummy::from(4 * 7));
    assert_eq!(assign(BinaryOp::Rem, &b), Dummy::from(4 % 7));
    assert_eq!(assign(BinaryOp::Sub, &b), Dummy::from(4 - 7));

    assert_eq!(assign(BinaryOp::Shl, &b), Dummy::from(4 << 7));
    assert_eq!(assign_rhs(BinaryOp::Shl, 7), Dummy::from(4 << 7));

    assert_eq!(assign(BinaryOp::Shr, &b), Dummy::from(4 >> 7));
    assert_eq!(assign_rhs(BinaryOp::Shr, 7), Dummy::from(4 >> 7));
}

#[test]
fn test_deref_index() {
    let mut a = Newtype::from(vec![1, 2, 3]);

    assert_eq!(a.deref().len(), 3);
    a.deref_mut().push(4);
    assert_eq!(&a.deref()[..], &[1, 2, 3, 4][..]);

    assert_eq!(a.index(1), 2);
    a.set_index(2, 5);
    assert_eq!(a.index(2), 5);
}

#[test]
fn type_index_reaches_the_field() {
    let mut a = Newtype::wrap(vec![1u8]);
    a.type_index_mut().push(2);
    assert_eq!(a.type_index(), &vec![1u8, 2]);
    assert_eq!(a.into_inner(), vec![1u8, 2]);
}

#[test]
fn test_pub_interior_fields() {
    let _ = Newtype { inner: 0i32 };
    let _ = Newtype { inner: vec![0i32] };
    let x = Newtype { inner: 3i32 };
    assert_eq!(x.binary(BinaryOp::Add, Newtype { inner: 1 }).inner, 4);
}

#[test]
fn test_pub_interior_fields_std_unstable() {
    let _ = Newtype { inner: 0i32 };
    assert_eq!(Dummy::zero().inner, 0);
    assert_eq!(Dummy::one().inner, 1);
}

#[test]
fn iter_test_sum_product() {
    let dummies = [Newtype { inner: 2 }, Newtype { inner: 3 }];
    assert_eq!(Dummy::sum(&dummies), Newtype { inner: 5 });
    assert_eq!(Dummy::sum(&dummies.to_vec()), Newtype { inner: 5 });
    assert_eq!(Dummy::product(&dummies), Newtype { inner: 6 });
    assert_eq!(Dummy::product(&dummies.to_vec()), Newtype { inner: 6 });
}

#[test]
fn std_unstable_test_sum_product() {
    let dummies = [Newtype { inner: 2 }, Newtype { inner: 3 }];
    assert_eq!(Dummy::sum(&dummies), Newtype { inner: 5 });
    assert_eq!(Dummy::product(&dummies), Newtype { inner: 6 });
    assert_eq!(Dummy::sum(&[]), Dummy::zero());
    assert_eq!(Dummy::product(&[]), Dummy::one());
}

#[test]
fn sum_product_with_negatives() {
    let items = [Newtype { inner: -4 }, Newtype { inner: 0 }, Newtype { inner: 9 }];
    assert_eq!(Dummy::sum(&items), Newtype { inner: 5 });
    assert_eq!(Dummy::product(&items), Newtype { inner: 0 });
    let items = [Newtype { inner: -4 }, Newtype { inner: -3 }];
    assert_eq!(Dummy::product(&items), Newtype { inner: 12 });
}

#[test]
fn test_one_zero() {
    assert_eq!(Dummy::zero(), Newtype { inner: 0 });
    assert_eq!(Dummy::one(), Newtype { inner: 1 });
}

#[test]
fn star_forms_test_arith() {
    let a = Dummy::from(4);
    let b = Dummy::from(7);
    let c = Dummy::from(11);

    assert_eq!(a.binary(BinaryOp::Add, b), c);
    assert_eq!((&a).binary_ref(BinaryOp::Add, &b), c);
    assert_eq!(a.binary_ref(BinaryOp::Add, &b), c);
    assert_eq!((&a).binary(BinaryOp::Add, b), c);

    assert_eq!(a.unary(UnaryOp::Neg), Dummy::from(-4));
    assert_eq!((&a).unary(UnaryOp::Neg), Dummy::from(-4));

    let shapes = OperatorArgs::Star.shapes();
    assert_eq!(shapes.len(), 4);
    assert!(shapes.iter().all(|s| s.rhs_type.is_none()));
    let _ = Newtype { inner: 0 };
}

#[test]
fn operator_argument_shapes() {
    let plain = OperandShape { lhs_by_ref: false, rhs_by_ref: false, rhs_type: None };
    assert_eq!(OperatorArgs::Plain.shapes(), vec![plain]);
    assert_eq!(
        OperatorArgs::BySelfRef.shapes(),
        vec![OperandShape { lhs_by_ref: true, rhs_by_ref: true, rhs_type: None }]
    );
    assert_eq!(
        OperatorArgs::WithRhs("i32".to_string()).shapes(),
        vec![OperandShape { lhs_by_ref: false, rhs_by_ref: false, rhs_type: Some("i32".to_string()) }]
    );
    assert_eq!(
        OperatorArgs::BySelfRefWithRhs("usize".to_string()).shapes(),
        vec![OperandShape { lhs_by_ref: true, rhs_by_ref: false, rhs_type: Some("usize".to_string()) }]
    );
    assert_eq!(
        OperatorArgs::Star.shapes(),
        vec![
            OperandShape { lhs_by_ref: false, rhs_by_ref: false, rhs_type: None },
            OperandShape { lhs_by_ref: true, rhs_by_ref: false, rhs_type: None },
            OperandShape { lhs_by_ref: false, rhs_by_ref: true, rhs_type: None },
            OperandShape { lhs_by_ref: true, rhs_by_ref: true, rhs_type: None },
        ]
    );
}
