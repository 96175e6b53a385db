use subenum::closure::compute_closure;
use subenum::enums::{retained_indices, Enum, Field, FieldsStyle, Variant};
use subenum::generics::{GenericParam, Generics, Predicate};
use subenum::param::Param;
use subenum::predicate::{analyze_generics, PredicateDependency};
use subenum::ty::{Bound, PathSeg, SegArgs, TypeExpr};
use subenum::visitor::ParamVisitor;

fn seg(name: &str) -> PathSeg {
    PathSeg {
        name: name.to_string(),
        args: SegArgs::Absent,
    }
}

fn path1(name: &str) -> TypeExpr {
    TypeExpr::Path(None, vec![seg(name)])
}

fn t(name: &str) -> Param {
    Param::Ident(name.to_string())
}

/// <T: Clone, U> where U: From<T> — two normalized predicates.
fn decl() -> Generics {
    Generics {
        params: vec![
            GenericParam::Type {
                name: "T".to_string(),
                bounds: vec![Bound::Trait(vec![seg("Clone")])],
            },
            GenericParam::Type {
                name: "U".to_string(),
                bounds: vec![],
            },
        ],
        where_clause: vec![Predicate::Type {
            subject: path1("U"),
            bounds: vec![Bound::Trait(vec![PathSeg {
                name: "From".to_string(),
                args: SegArgs::Angle(vec![subenum::ty::GenArg::Type(Box::new(path1("T")))]),
            }])],
        }],
    }
}

#[test]
fn test_analyze_generics_normalizes() {
    // The inline bound `T: Clone` is restated first, then the explicit
    // predicate; each is paired with the declared parameters it uses.
    let deps: Vec<PredicateDependency> = analyze_generics(&decl()).unwrap();
    assert_eq!(deps.len(), 2);
    assert_eq!(
        deps[0].predicate,
        Predicate::Type {
            subject: path1("T"),
            bounds: vec![Bound::Trait(vec![seg("Clone")])],
        }
    );
    assert_eq!(deps[0].used_params, vec![t("T")]);
    // `U: From<T>` uses both declared parameters; `From` is not one.
    assert_eq!(deps[1].used_params.len(), 2);
    assert!(deps[1].used_params.contains(&t("U")));
    assert!(deps[1].used_params.contains(&t("T")));
}

#[test]
fn test_analyze_generics_rejects_equality() {
    let mut g = decl();
    g.where_clause.push(Predicate::Equality {
        lhs: path1("T"),
        rhs: path1("U"),
    });
    assert!(analyze_generics(&g).is_err());
}

#[test]
fn test_compute_closure_fixed_point() {
    // Seeding with T pulls in U through `U: From<T>`, and both predicates
    // are reported as active, in order.
    let deps = analyze_generics(&decl()).unwrap();
    let seed = vec![t("T")];
    let (active, picked) = compute_closure(&seed, &deps);
    assert!(active.contains(&t("T")));
    assert!(active.contains(&t("U")));
    assert_eq!(active.len(), 2);
    assert_eq!(picked, vec![0, 1]);
}

#[test]
fn test_compute_closure_ignores_untouched() {
    // A dependency sharing nothing with the seed is not consumed and adds
    // nothing.
    let deps = analyze_generics(&decl()).unwrap();
    let seed = vec![Param::Lifetime("q".to_string())];
    let (active, picked) = compute_closure(&seed, &deps);
    assert_eq!(active, vec![Param::Lifetime("q".to_string())]);
    assert_eq!(picked, vec![]);
}

#[test]
fn test_retained_indices_for_selection() {
    // A child using only U still retains both predicates: `U: From<T>`
    // touches U, and through it T and `T: Clone` become active.
    let variants = vec![Variant {
        ident: "OnlyU".to_string(),
        style: FieldsStyle::Positional,
        fields: vec![Field {
            name: None,
            ty: path1("U"),
        }],
    }];
    let picked = retained_indices(&decl(), &variants).unwrap();
    assert_eq!(picked, vec![0, 1]);
}

#[test]
fn test_visitor_registers_declared_only() {
    let g = decl();
    let mut vis = ParamVisitor::new(&g);
    vis.visit_path(&vec![PathSeg {
        name: "T".to_string(),
        args: SegArgs::Absent,
    }]);
    vis.visit_path(&vec![seg("Clone")]);
    vis.visit_lifetime(&"zz".to_string());
    // Only the declared parameter is recorded; `Clone` and an undeclared
    // lifetime are dropped.
    assert_eq!(vis.found, vec![t("T")]);
}

#[test]
fn test_enum_new_and_compute() {
    let mut child = Enum::new("Mini".to_string(), vec![]);
    child.variants.push(Variant {
        ident: "OnlyT".to_string(),
        style: FieldsStyle::Positional,
        fields: vec![Field {
            name: None,
            ty: path1("T"),
        }],
    });
    child.compute_generics(&decl()).unwrap();
    // T's inline bound lives on as a where predicate; U joins through
    // `U: From<T>`.
    assert_eq!(child.generics.params.len(), 2);
    assert_eq!(child.generics.where_clause.len(), 2);
    for p in &child.generics.params {
        match p {
            GenericParam::Type { bounds, .. } => assert!(bounds.is_empty()),
            _ => panic!("unexpected parameter kind"),
        }
    }
}
