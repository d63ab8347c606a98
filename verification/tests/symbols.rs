use std::cmp::Ordering;

use raph::elaboration::Term;
use raph::module::name::{Name, QualifiedName};
use raph::module::prim::{prim_fin, prim_nat, prim_string, prim_type, PRIM_MODULE_ID};
use raph::module::unique::{bytes_lt, text_lt, Unique};
use raph::syntax::tree::Literal;
use raph::syntax::{SourcePos, SourceSpan};

fn named(id: usize, module: &str, shown: &str) -> Unique {
    Unique::new(id, module.to_string(), Some(shown.to_string()))
}

fn at(start: usize, end: usize) -> SourceSpan {
    SourceSpan {
        start: SourcePos { file_index: 0, line: 1, column: start + 1, byte_offset: start },
        end: SourcePos { file_index: 0, line: 1, column: end + 1, byte_offset: end },
    }
}

#[test]
fn new_keeps_what_it_is_given() {
    let unique = Unique::new(5, "m".to_string(), Some("f".to_string()));
    assert_eq!(unique.id, 5);
    assert_eq!(unique.module_id, "m");
    assert_eq!(unique.display_name.as_deref(), Some("f"));
}

#[test]
fn unnamed_shows_no_name() {
    let unique = Unique::unnamed(6, "m".to_string());
    assert_eq!(unique.id, 6);
    assert_eq!(unique.module_id, "m");
    assert_eq!(unique.display_name, None);
}

#[test]
fn the_shown_name_does_not_count_for_equality() {
    assert!(named(1, "m", "f") == named(1, "m", "g"));
    assert!(named(1, "m", "f") == Unique::unnamed(1, "m".to_string()));
    assert!(named(1, "m", "f") == named(1, "m", "f"));
}

#[test]
fn different_numbers_are_different_symbols() {
    assert!(named(1, "m", "f") != named(2, "m", "f"));
    assert!(Unique::unnamed(0, "m".to_string()) != Unique::unnamed(1, "m".to_string()));
}

#[test]
fn different_modules_are_different_symbols() {
    assert!(named(1, "m", "f") != named(1, "n", "f"));
    assert!(named(1, "m", "f") != named(1, "", "f"));
}

#[test]
fn symbols_are_ordered_by_number_then_by_module() {
    assert_eq!(named(1, "z", "a").partial_cmp(&named(2, "a", "a")), Some(Ordering::Less));
    assert_eq!(named(2, "a", "a").partial_cmp(&named(1, "z", "a")), Some(Ordering::Greater));
    assert_eq!(named(1, "a", "x").partial_cmp(&named(1, "b", "x")), Some(Ordering::Less));
    assert_eq!(named(1, "b", "x").partial_cmp(&named(1, "a", "x")), Some(Ordering::Greater));
    assert_eq!(named(1, "a", "x").partial_cmp(&named(1, "a", "y")), Some(Ordering::Equal));
    assert!(named(3, "m", "b") < named(3, "n", "a"));
    assert!(named(3, "m", "b") <= named(3, "m", "a"));
    assert!(named(3, "m", "b") >= named(3, "m", "a"));
}

#[test]
fn modules_are_ordered_like_strings() {
    let names = ["", "a", "ab", "abc", "b", "B", "prim", "prime", "é", "z", "\u{10000}", "\u{ffff}"];
    for a in names {
        for b in names {
            let left = Unique::unnamed(0, a.to_string());
            let right = Unique::unnamed(0, b.to_string());
            assert_eq!(left.partial_cmp(&right), Some(a.cmp(b)), "{:?} and {:?}", a, b);
            assert_eq!(left == right, a == b);
        }
    }
}

#[test]
fn qualified_names_compare_as_their_symbols_do() {
    let a = QualifiedName::new(named(1, "m", "f"));
    let b = QualifiedName::new(named(1, "m", "g"));
    let c = QualifiedName::new(named(1, "n", "f"));
    let d = QualifiedName::new(named(0, "z", "f"));
    assert!(a == b);
    assert!(a != c);
    assert_eq!(a.partial_cmp(&b), Some(Ordering::Equal));
    assert_eq!(a.partial_cmp(&c), Some(Ordering::Less));
    assert_eq!(c.partial_cmp(&d), Some(Ordering::Greater));
    assert!(d < a && a < c);
    assert_eq!(a.unique().id, 1);
    assert_eq!(a.unique().display_name.as_deref(), Some("f"));
}

#[test]
fn sorting_by_the_order_is_the_same_whatever_names_are_shown() {
    let mut keys = vec![
        QualifiedName::new(named(2, "b", "x")),
        QualifiedName::new(named(0, "prim", "Nat")),
        QualifiedName::new(named(2, "a", "y")),
        QualifiedName::new(named(1, "c", "z")),
    ];
    keys.sort_by(|a, b| a.partial_cmp(b).unwrap());
    let order: Vec<(usize, &str)> =
        keys.iter().map(|k| (k.unique.id, k.unique.module_id.as_str())).collect();
    assert_eq!(order, vec![(0, "prim"), (1, "c"), (2, "a"), (2, "b")]);
}

#[test]
fn the_built_in_names_have_the_numbers_zero_to_three() {
    let all = [(prim_nat(), "Nat"), (prim_string(), "String"), (prim_type(), "Type"), (prim_fin(), "Fin")];
    for (number, (name, shown)) in all.iter().enumerate() {
        assert_eq!(name.unique.id, number);
        assert_eq!(name.unique.module_id, "prim");
        assert_eq!(name.unique.module_id, PRIM_MODULE_ID);
        assert_eq!(name.unique.display_name.as_deref(), Some(*shown));
    }
}

#[test]
fn the_built_in_names_are_the_same_at_every_call() {
    assert!(prim_nat() == prim_nat());
    assert!(prim_string() == prim_string());
    assert!(prim_type() == prim_type());
    assert!(prim_fin() == prim_fin());
    assert!(prim_nat() != prim_string());
    assert!(prim_nat() < prim_string() && prim_string() < prim_type() && prim_type() < prim_fin());
    assert!(prim_nat() == QualifiedName::new(Unique::unnamed(0, "prim".to_string())));
    assert!(prim_nat() != QualifiedName::new(Unique::unnamed(0, "user".to_string())));
}

#[test]
fn every_name_gives_its_symbol_and_its_span() {
    let variable = Name::Variable { unique: named(1, "m", "x"), de_bruijn_idx: 2, span: at(0, 1) };
    let intrinsic = Name::Intrinsic { unique: named(2, "m", "add"), span: at(2, 5) };
    let structure =
        Name::Struct { unique: named(3, "m", "Point"), name: "Point".to_string(), span: at(6, 11) };
    assert_eq!(variable.unique().id, 1);
    assert_eq!(*variable.span(), at(0, 1));
    assert_eq!(intrinsic.unique().id, 2);
    assert_eq!(intrinsic.unique().display_name.as_deref(), Some("add"));
    assert_eq!(*intrinsic.span(), at(2, 5));
    assert_eq!(structure.unique().id, 3);
    assert_eq!(*structure.span(), at(6, 11));
}

fn variable(index: usize) -> Term {
    Term::Ref(Name::Variable { unique: named(index, "m", "v"), de_bruijn_idx: index, span: at(0, 1) })
}

fn boxed(term: Term) -> Box<Term> {
    Box::new(term)
}

#[test]
fn a_variable_is_in_scope_below_enough_binders() {
    assert!(!variable(0).is_well_scoped(0));
    assert!(variable(0).is_well_scoped(1));
    assert!(!variable(3).is_well_scoped(3));
    assert!(variable(3).is_well_scoped(4));
    assert!(variable(usize::MAX - 1).is_well_scoped(usize::MAX));
    assert!(!variable(usize::MAX).is_well_scoped(usize::MAX));
}

#[test]
fn what_is_no_variable_is_always_in_scope() {
    assert!(Term::Meta(9).is_well_scoped(0));
    assert!(Term::Lit(Literal::Nat(1)).is_well_scoped(0));
    assert!(Term::Lit(Literal::String("s".to_string())).is_well_scoped(0));
    assert!(Term::Ref(Name::Intrinsic { unique: named(0, "m", "i"), span: at(0, 1) }).is_well_scoped(0));
    assert!(Term::Ref(Name::Struct {
        unique: named(0, "m", "S"),
        name: "S".to_string(),
        span: at(0, 1)
    })
    .is_well_scoped(0));
}

#[test]
fn every_binding_site_adds_one_binder() {
    assert!(Term::Lam(boxed(variable(0))).is_well_scoped(0));
    assert!(!Term::Lam(boxed(variable(1))).is_well_scoped(0));
    assert!(Term::Lam(boxed(Term::Lam(boxed(variable(1))))).is_well_scoped(0));
    assert!(Term::Pi(boxed(Term::Meta(0)), boxed(variable(0))).is_well_scoped(0));
    assert!(!Term::Pi(boxed(variable(0)), boxed(variable(0))).is_well_scoped(0));
    assert!(Term::Sigma(boxed(Term::Meta(0)), boxed(variable(0))).is_well_scoped(0));
    assert!(!Term::Sigma(boxed(variable(0)), boxed(Term::Meta(0))).is_well_scoped(0));
    assert!(Term::Let(boxed(Term::Meta(0)), boxed(Term::Meta(1)), boxed(variable(0))).is_well_scoped(0));
    assert!(!Term::Let(boxed(Term::Meta(0)), boxed(variable(0)), boxed(variable(0))).is_well_scoped(0));
    assert!(!Term::Let(boxed(variable(0)), boxed(Term::Meta(0)), boxed(variable(0))).is_well_scoped(0));
    assert!(Term::App(boxed(variable(0)), boxed(variable(1))).is_well_scoped(2));
    assert!(!Term::App(boxed(variable(0)), boxed(variable(1))).is_well_scoped(1));
    assert!(!Term::App(boxed(variable(1)), boxed(variable(0))).is_well_scoped(1));
}

#[test]
fn binders_beyond_the_largest_index_put_everything_in_scope() {
    assert!(Term::Lam(boxed(variable(usize::MAX))).is_well_scoped(usize::MAX));
    assert!(Term::Lam(boxed(Term::Lam(boxed(variable(usize::MAX))))).is_well_scoped(usize::MAX));
}

#[test]
fn bytes_are_ordered_one_by_one() {
    let samples: [&[u8]; 9] =
        [b"", b"a", b"ab", b"abc", b"b", &[0x00], &[0xff], &[0x61, 0x00], &[0x61, 0xff, 0x00]];
    for a in samples {
        for b in samples {
            assert_eq!(bytes_lt(a, b), a < b, "{:?} and {:?}", a, b);
        }
    }
}

#[test]
fn strings_are_ordered_as_the_standard_library_orders_them() {
    let samples = ["", "a", "A", "ab", "b", "prim", "é", "z", "€", "\u{d7ff}", "\u{e000}", "\u{10000}"];
    for a in samples {
        for b in samples {
            assert_eq!(text_lt(&a.to_string(), &b.to_string()), a < b, "{:?} and {:?}", a, b);
        }
    }
}
