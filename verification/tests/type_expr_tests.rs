use hasselc::type_expr::BaseType::{Bool, Pointer, UnresolvedNumber, Void, U16, U8};
use hasselc::type_expr::TypeExpression::{Arithmetic, Assign, Cast, Comparison, Index, Unit};

#[test]
fn test_expressions() {
    let expr = Assign(
        U16,
        Box::new(Arithmetic(
            Box::new(Unit(UnresolvedNumber)),
            Box::new(Unit(UnresolvedNumber)),
        )),
    );
    assert_eq!(Some(U16), expr.resolve());

    let expr = Assign(
        U8,
        Box::new(Arithmetic(
            Box::new(Unit(UnresolvedNumber)),
            Box::new(Unit(UnresolvedNumber)),
        )),
    );
    assert_eq!(Some(U8), expr.resolve());

    let expr = Assign(
        Pointer(Box::new(U8)),
        Box::new(Arithmetic(
            Box::new(Unit(UnresolvedNumber)),
            Box::new(Unit(UnresolvedNumber)),
        )),
    );
    assert_eq!(Some(Pointer(Box::new(U8))), expr.resolve());
}

#[test]
fn test_arithmetic() {
    let expr = Arithmetic(Box::new(Unit(U8)), Box::new(Unit(U8)));
    assert_eq!(Some(U8), expr.resolve());

    let expr = Arithmetic(Box::new(Unit(U16)), Box::new(Unit(U8)));
    assert_eq!(Some(U16), expr.resolve());

    let expr = Arithmetic(Box::new(Unit(U16)), Box::new(Unit(U16)));
    assert_eq!(Some(U16), expr.resolve());

    let expr = Arithmetic(Box::new(Unit(U8)), Box::new(Unit(U16)));
    assert_eq!(Some(U16), expr.resolve());

    let expr = Arithmetic(Box::new(Unit(U8)), Box::new(Unit(Bool)));
    assert_eq!(Some(U8), expr.resolve());

    let expr = Arithmetic(Box::new(Unit(Bool)), Box::new(Unit(U8)));
    assert_eq!(Some(U8), expr.resolve());

    let expr = Arithmetic(Box::new(Unit(U16)), Box::new(Unit(Bool)));
    assert_eq!(Some(U16), expr.resolve());

    let expr = Arithmetic(Box::new(Unit(Bool)), Box::new(Unit(U16)));
    assert_eq!(Some(U16), expr.resolve());

    let expr = Arithmetic(Box::new(Unit(U8)), Box::new(Unit(Void)));
    assert_eq!(None, expr.resolve());

    let expr = Arithmetic(Box::new(Unit(Void)), Box::new(Unit(U8)));
    assert_eq!(None, expr.resolve());

    let expr = Arithmetic(Box::new(Unit(U16)), Box::new(Unit(Void)));
    assert_eq!(None, expr.resolve());

    let expr = Arithmetic(Box::new(Unit(Void)), Box::new(Unit(U16)));
    assert_eq!(None, expr.resolve());
}

#[test]
fn test_assign() {
    let expr = Assign(U8, Box::new(Unit(U8)));
    assert_eq!(Some(U8), expr.resolve());

    let expr = Assign(U8, Box::new(Unit(UnresolvedNumber)));
    assert_eq!(Some(U8), expr.resolve());

    let expr = Assign(U8, Box::new(Unit(U16)));
    assert_eq!(None, expr.resolve());

    let expr = Assign(U16, Box::new(Unit(U8)));
    assert_eq!(Some(U16), expr.resolve());

    let expr = Assign(U16, Box::new(Unit(Pointer(Box::new(U8)))));
    assert_eq!(Some(U16), expr.resolve());

    let expr = Assign(Pointer(Box::new(U8)), Box::new(Unit(U16)));
    assert_eq!(Some(Pointer(Box::new(U8))), expr.resolve());
}

#[test]
fn test_cast() {
    let expr = Cast(U8, Box::new(Unit(U8)));
    assert_eq!(Some(U8), expr.resolve());

    let expr = Cast(Bool, Box::new(Unit(U8)));
    assert_eq!(Some(Bool), expr.resolve());

    let expr = Cast(Pointer(Box::new(U8)), Box::new(Unit(U8)));
    assert_eq!(Some(Pointer(Box::new(U8))), expr.resolve());

    let expr = Cast(Bool, Box::new(Unit(Pointer(Box::new(U8)))));
    assert_eq!(Some(Bool), expr.resolve());
}

#[test]
fn test_comparison() {
    let expr = Comparison(Box::new(Unit(U8)), Box::new(Unit(U8)));
    assert_eq!(Some(Bool), expr.resolve());

    let expr = Comparison(Box::new(Unit(U16)), Box::new(Unit(U8)));
    assert_eq!(None, expr.resolve());

    let expr = Comparison(Box::new(Unit(U8)), Box::new(Unit(U16)));
    assert_eq!(None, expr.resolve());

    let expr = Comparison(Box::new(Unit(U16)), Box::new(Unit(U16)));
    assert_eq!(Some(Bool), expr.resolve());

    let expr = Comparison(Box::new(Unit(Bool)), Box::new(Unit(Bool)));
    assert_eq!(Some(Bool), expr.resolve());

    let expr = Comparison(
        Box::new(Unit(Pointer(Box::new(U8)))),
        Box::new(Unit(Pointer(Box::new(U8)))),
    );
    assert_eq!(Some(Bool), expr.resolve());
}

#[test]
fn test_index() {
    let expr = Arithmetic(
        Box::new(Unit(U8)),
        Box::new(Index(
            Box::new(Unit(Pointer(Box::new(U8)))),
            Box::new(Unit(U16)),
        )),
    );
    assert_eq!(Some(U8), expr.resolve());
}

#[test]
fn index_with_non_numeric_index_fails() {
    let expr = Index(Box::new(Unit(Pointer(Box::new(U8)))), Box::new(Unit(Void)));
    assert_eq!(None, expr.resolve());
    let expr = Index(Box::new(Unit(U16)), Box::new(Unit(U8)));
    assert_eq!(None, expr.resolve());
}

#[test]
fn is_equivalent_compares_the_resolved_type() {
    let expr = Arithmetic(Box::new(Unit(U8)), Box::new(Unit(U16)));
    assert!(expr.is_equivalent(&U16));
    assert!(expr.is_equivalent(&UnresolvedNumber));
    assert!(!expr.is_equivalent(&U8));
    let expr = Arithmetic(Box::new(Unit(U8)), Box::new(Unit(Void)));
    assert!(!expr.is_equivalent(&U8));
}

#[test]
fn type_sizes_and_natives() {
    assert_eq!(Some(0), Void.size());
    assert_eq!(None, UnresolvedNumber.size());
    assert_eq!(Some(2), Pointer(Box::new(U8)).size());
    assert_eq!(None, UnresolvedNumber.as_native());
    assert_eq!(Some(U8), Pointer(Box::new(U8)).underlying_type());
    assert!(U8.can_index_array());
    assert!(!Bool.can_index_array() || Bool.can_assign_into(&U16));
}
