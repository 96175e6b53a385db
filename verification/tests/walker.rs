use subenum::correspond::{variant_correspondence, Binder};
use subenum::derive::partial_eq::partial_eq_arm;
use subenum::derive::Derive;
use subenum::enums::{Field, FieldsStyle, Variant};
use subenum::extractor::Extractor;
use subenum::generics::{GenericParam, Generics, Predicate};
use subenum::param::Param;
use subenum::ty::{Bound, ConstArg, GenArg, PathSeg, SegArgs, TypeExpr};

fn seg(name: &str) -> PathSeg {
    PathSeg {
        name: name.to_string(),
        args: SegArgs::Absent,
    }
}

fn path1(name: &str) -> TypeExpr {
    TypeExpr::Path(None, vec![seg(name)])
}

#[test]
fn test_extract_params_nested() {
    // &'a [Option<T>; N] mentions 'a, Option (the head identifier), T, N.
    let ty = TypeExpr::Reference(
        Some("a".to_string()),
        Box::new(TypeExpr::Array(
            Box::new(TypeExpr::Path(
                None,
                vec![PathSeg {
                    name: "Option".to_string(),
                    args: SegArgs::Angle(vec![GenArg::Type(Box::new(path1("T")))]),
                }],
            )),
            ConstArg::Named("N".to_string()),
        )),
    );
    let params = ty.extract_params();
    assert!(params.contains(&Param::Lifetime("a".to_string())));
    assert!(params.contains(&Param::Ident("T".to_string())));
    assert!(params.contains(&Param::Ident("N".to_string())));
    assert!(params.contains(&Param::Ident("Option".to_string())));
    assert!(!params.contains(&Param::Ident("str".to_string())));

    let lts = ty.extract_lifetimes();
    assert_eq!(lts, vec!["a".to_string()]);

    let ids = ty.extract_idents();
    assert!(ids.contains(&"T".to_string()));
    assert!(!ids.contains(&"a".to_string()));
}

#[test]
fn test_extract_binding_argument() {
    // dyn Iterator<Item = U> mentions Iterator and U, but not Item.
    let ty = TypeExpr::TraitObject(vec![Bound::Trait(vec![PathSeg {
        name: "Iterator".to_string(),
        args: SegArgs::Angle(vec![GenArg::Binding(
            "Item".to_string(),
            Box::new(path1("U")),
        )]),
    }])]);
    let params = ty.extract_params();
    assert!(params.contains(&Param::Ident("U".to_string())));
    assert!(params.contains(&Param::Ident("Iterator".to_string())));
    assert!(!params.contains(&Param::Ident("Item".to_string())));
}

#[test]
fn test_find_locates_declaration_and_predicate() {
    let generics = Generics {
        params: vec![
            GenericParam::Lifetime {
                name: "a".to_string(),
                bounds: vec![],
            },
            GenericParam::Type {
                name: "T".to_string(),
                bounds: vec![],
            },
        ],
        where_clause: vec![
            Predicate::Lifetime {
                lifetime: "a".to_string(),
                bounds: vec!["b".to_string()],
            },
            Predicate::Type {
                subject: TypeExpr::Path(
                    None,
                    vec![PathSeg {
                        name: "Option".to_string(),
                        args: SegArgs::Angle(vec![GenArg::Type(Box::new(path1("T")))]),
                    }],
                ),
                bounds: vec![Bound::Trait(vec![seg("Clone")])],
            },
        ],
    };

    let t = Param::Ident("T".to_string());
    let (decl, pred) = t.find(&generics);
    assert_eq!(
        decl,
        Some(&GenericParam::Type {
            name: "T".to_string(),
            bounds: vec![],
        })
    );
    // `Option<T>: Clone` is about T even though T is nested in the subject.
    assert!(matches!(pred, Some(Predicate::Type { .. })));

    let a = Param::Lifetime("a".to_string());
    let (decl_a, pred_a) = a.find(&generics);
    assert!(matches!(decl_a, Some(GenericParam::Lifetime { .. })));
    assert!(matches!(pred_a, Some(Predicate::Lifetime { .. })));

    let missing = Param::Ident("Zed".to_string());
    assert_eq!(missing.find(&generics), (None, None));
}

#[test]
fn test_derive_as_bound() {
    let b = Derive::PartialEq.as_bound();
    assert_eq!(b, Bound::Trait(vec![seg("PartialEq")]));
}

#[test]
fn test_partial_eq_arm_binders() {
    // A named variant binds each field under its own name; the arm carries
    // both enumeration names and the shared variant.
    let variant = Variant {
        ident: "Point".to_string(),
        style: FieldsStyle::Named,
        fields: vec![
            Field {
                name: Some("x".to_string()),
                ty: path1("i32"),
            },
            Field {
                name: Some("y".to_string()),
                ty: path1("i32"),
            },
        ],
    };
    let arm = partial_eq_arm(&variant, &"Child".to_string(), &"Parent".to_string()).unwrap();
    assert_eq!(arm.child_ident, "Child");
    assert_eq!(arm.parent_ident, "Parent");
    assert_eq!(arm.variant, "Point");
    assert_eq!(
        arm.binders,
        vec![
            Binder::Named("x".to_string()),
            Binder::Named("y".to_string()),
        ]
    );

    // A positional variant synthesizes placeholder binders by index.
    let tuple_variant = Variant {
        ident: "Pair".to_string(),
        style: FieldsStyle::Positional,
        fields: vec![
            Field {
                name: None,
                ty: path1("u8"),
            },
            Field {
                name: None,
                ty: path1("u16"),
            },
        ],
    };
    let c = variant_correspondence(&tuple_variant).unwrap();
    assert_eq!(c.variant, "Pair");
    assert_eq!(c.binders, vec![Binder::Positional(0), Binder::Positional(1)]);
}
