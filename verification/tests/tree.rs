use raph::syntax::tree::{Binder, Expr, ExprKind, Literal, NoAnn, Parsed, TypeExpr, Typed};

fn var<P: raph::syntax::tree::Phase<ExprAnn = NoAnn>>(name: &str) -> Expr<P> {
    Expr { ann: NoAnn, kind: ExprKind::Var(name.to_string()) }
}

fn sample() -> Expr<Parsed> {
    let definition = Expr {
        ann: NoAnn,
        kind: ExprKind::Def {
            name: "id".to_string(),
            binders: vec![
                Binder::Implicit("a".to_string(), Box::new(TypeExpr::Constructor("Type".to_string()))),
                Binder::Explicit("x".to_string(), Box::new(TypeExpr::Var("a".to_string()))),
            ],
            return_type: TypeExpr::Var("a".to_string()),
        },
    };
    let call = Expr {
        ann: NoAnn,
        kind: ExprKind::App(Box::new(var("id")), Box::new(var("y"))),
    };
    Expr { ann: NoAnn, kind: ExprKind::Root(vec![definition, call, var("z")]) }
}

#[test]
fn a_copy_of_an_expression_is_equal_to_it() {
    let first = sample();
    assert_eq!(first.clone(), first);
    assert_eq!(first.duplicate(), first);
    assert_eq!(first.kind.clone(), first.kind);
    let empty: Expr<Parsed> = Expr { ann: NoAnn, kind: ExprKind::Root(vec![]) };
    assert_eq!(empty.clone(), empty);
    assert_ne!(empty, first);
}

#[test]
fn expressions_of_both_phases_have_the_same_shape() {
    let parsed: Expr<Parsed> = var("x");
    let typed: Expr<Typed> = var("x");
    assert_eq!(parsed.kind, ExprKind::Var("x".to_string()));
    assert_eq!(typed.kind, ExprKind::Var("x".to_string()));
}

#[test]
fn type_expressions_compare_node_by_node() {
    let list = TypeExpr::List(Box::new(TypeExpr::Nat(3)));
    assert_eq!(list.clone(), list);
    assert_ne!(list, TypeExpr::List(Box::new(TypeExpr::Nat(4))));
    assert_ne!(TypeExpr::Var("x".to_string()), TypeExpr::Constructor("x".to_string()));
    assert_ne!(
        Binder::Explicit("x".to_string(), Box::new(TypeExpr::Nat(0))),
        Binder::Implicit("x".to_string(), Box::new(TypeExpr::Nat(0)))
    );
    let binder = Binder::Instance("e".to_string(), Box::new(TypeExpr::String("s".to_string())));
    assert_eq!(binder.clone(), binder);
    assert_eq!(binder.duplicate(), binder);
}

#[test]
fn literals_compare_by_value() {
    assert_eq!(Literal::Nat(1), Literal::Nat(1));
    assert_ne!(Literal::Nat(1), Literal::Nat(2));
    assert_eq!(Literal::String("a".to_string()).clone(), Literal::String("a".to_string()));
    assert_ne!(Literal::String("1".to_string()), Literal::Nat(1));
}
