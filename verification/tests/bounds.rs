use subenum::enums::{Field, FieldsStyle, Variant};
use subenum::generics::{GenericParam, Generics, Predicate};
use subenum::ty::{Bound, PathSeg, SegArgs, TypeExpr};
use subenum::{subenum, ChildRef, ParentDecl, ParentVariant};

fn seg(name: &str) -> PathSeg {
    PathSeg {
        name: name.to_string(),
        args: SegArgs::Absent,
    }
}

fn path1(name: &str) -> TypeExpr {
    TypeExpr::Path(None, vec![seg(name)])
}

fn type_param(name: &str, bounds: Vec<Bound>) -> GenericParam {
    GenericParam::Type {
        name: name.to_string(),
        bounds,
    }
}

fn uses(ident: &str, ty_name: &str, child: &str) -> ParentVariant {
    ParentVariant {
        variant: Variant {
            ident: ident.to_string(),
            style: FieldsStyle::Positional,
            fields: vec![Field {
                name: None,
                ty: path1(ty_name),
            }],
        },
        children: vec![ChildRef {
            child: child.to_string(),
            with_types: None,
        }],
    }
}

#[test]
fn test_bound_pulls_in_target() {
    // Parameters T, U with inline bound `T: U`; the selected variant uses
    // only T. Both T and U must stay, with the bound restated as the
    // where-predicate `T: U`; U is otherwise unused.
    let parent = ParentDecl {
        ident: "Pair".to_string(),
        generics: Generics {
            params: vec![
                type_param("T", vec![Bound::Trait(vec![seg("U")])]),
                type_param("U", vec![]),
            ],
            where_clause: vec![],
        },
        variants: vec![uses("OnlyT", "T", "Narrow")],
    };
    let children = vec!["Narrow".to_string()];
    let exp = subenum(&parent, &children, &vec![]).unwrap();
    let narrow = &exp.enums[0];

    assert_eq!(
        narrow.generics.params,
        vec![type_param("T", vec![]), type_param("U", vec![])]
    );
    assert_eq!(
        narrow.generics.where_clause,
        vec![Predicate::Type {
            subject: path1("T"),
            bounds: vec![Bound::Trait(vec![seg("U")])],
        }]
    );
}

#[test]
fn test_transitive_bound_chain() {
    // T: U, U: V, and an unrelated pair Y: Z. A variant using T must keep
    // T, U and V and both predicates of the chain — and nothing of Y, Z.
    let parent = ParentDecl {
        ident: "Chain".to_string(),
        generics: Generics {
            params: vec![
                type_param("T", vec![]),
                type_param("U", vec![]),
                type_param("V", vec![]),
                type_param("Y", vec![]),
                type_param("Z", vec![]),
            ],
            where_clause: vec![
                Predicate::Type {
                    subject: path1("T"),
                    bounds: vec![Bound::Trait(vec![seg("U")])],
                },
                Predicate::Type {
                    subject: path1("U"),
                    bounds: vec![Bound::Trait(vec![seg("V")])],
                },
                Predicate::Type {
                    subject: path1("Y"),
                    bounds: vec![Bound::Trait(vec![seg("Z")])],
                },
            ],
        },
        variants: vec![uses("Holder", "T", "Chained")],
    };
    let children = vec!["Chained".to_string()];
    let exp = subenum(&parent, &children, &vec![]).unwrap();
    let chained = &exp.enums[0];

    assert_eq!(
        chained.generics.params,
        vec![
            type_param("T", vec![]),
            type_param("U", vec![]),
            type_param("V", vec![]),
        ]
    );
    assert_eq!(chained.generics.where_clause.len(), 2);
}

#[test]
fn test_unrelated_parameters_dropped() {
    // T, U, V with independent bounds; only T is used: the reduction is T
    // alone — no accidental over-retention.
    let parent = ParentDecl {
        ident: "Trio".to_string(),
        generics: Generics {
            params: vec![
                type_param("T", vec![]),
                type_param("U", vec![Bound::Trait(vec![seg("Clone")])]),
                type_param("V", vec![Bound::Trait(vec![seg("Copy")])]),
            ],
            where_clause: vec![],
        },
        variants: vec![uses("JustT", "T", "Mini")],
    };
    let children = vec!["Mini".to_string()];
    let exp = subenum(&parent, &children, &vec![]).unwrap();
    assert_eq!(exp.enums[0].generics.params, vec![type_param("T", vec![])]);
    assert_eq!(exp.enums[0].generics.where_clause, vec![]);
}

#[test]
fn test_no_inline_bounds_in_output() {
    // A kept parameter's inline bounds move wholly into the where clause:
    // the reduced declaration never carries a bound in both places.
    let parent = ParentDecl {
        ident: "Solo".to_string(),
        generics: Generics {
            params: vec![type_param(
                "T",
                vec![
                    Bound::Trait(vec![seg("Clone")]),
                    Bound::Trait(vec![seg("Default")]),
                ],
            )],
            where_clause: vec![],
        },
        variants: vec![uses("Only", "T", "Sub")],
    };
    let children = vec!["Sub".to_string()];
    let exp = subenum(&parent, &children, &vec![]).unwrap();
    let sub = &exp.enums[0];

    for p in sub.generics.params.iter() {
        match p {
            GenericParam::Type { bounds, .. } => assert!(bounds.is_empty()),
            GenericParam::Lifetime { bounds, .. } => assert!(bounds.is_empty()),
            GenericParam::Const { .. } => {}
        }
    }
    assert_eq!(
        sub.generics.where_clause,
        vec![Predicate::Type {
            subject: path1("T"),
            bounds: vec![
                Bound::Trait(vec![seg("Clone")]),
                Bound::Trait(vec![seg("Default")]),
            ],
        }]
    );
}

#[test]
fn test_diamond_dependencies() {
    // T: U, T: V, U: W, V: W — a diamond. Reaching T must retain all four
    // parameters and all four predicates, each exactly once.
    let pred = |from: &str, to: &str| Predicate::Type {
        subject: path1(from),
        bounds: vec![Bound::Trait(vec![seg(to)])],
    };
    let parent = ParentDecl {
        ident: "Diamond".to_string(),
        generics: Generics {
            params: vec![
                type_param("T", vec![]),
                type_param("U", vec![]),
                type_param("V", vec![]),
                type_param("W", vec![]),
            ],
            where_clause: vec![
                pred("T", "U"),
                pred("T", "V"),
                pred("U", "W"),
                pred("V", "W"),
            ],
        },
        variants: vec![uses("Holder", "T", "Cut")],
    };
    let children = vec!["Cut".to_string()];
    let exp = subenum(&parent, &children, &vec![]).unwrap();
    let cut = &exp.enums[0];
    assert_eq!(cut.generics.params.len(), 4);
    assert_eq!(cut.generics.where_clause.len(), 4);
}

#[test]
fn test_mutually_recursive_bounds() {
    // Two parameters whose bounds mention each other: the fixed point
    // terminates and keeps both.
    let parent = ParentDecl {
        ident: "Knot".to_string(),
        generics: Generics {
            params: vec![type_param("T", vec![]), type_param("U", vec![])],
            where_clause: vec![
                Predicate::Type {
                    subject: path1("T"),
                    bounds: vec![Bound::Trait(vec![seg("U")])],
                },
                Predicate::Type {
                    subject: path1("U"),
                    bounds: vec![Bound::Trait(vec![seg("T")])],
                },
            ],
        },
        variants: vec![uses("Holder", "T", "Tangled")],
    };
    let children = vec!["Tangled".to_string()];
    let exp = subenum(&parent, &children, &vec![]).unwrap();
    let tangled = &exp.enums[0];
    assert_eq!(
        tangled.generics.params,
        vec![type_param("T", vec![]), type_param("U", vec![])]
    );
    assert_eq!(tangled.generics.where_clause.len(), 2);
}

#[test]
fn test_lifetime_outlives_chain() {
    // 'a: 'b as an inline lifetime bound: using 'a must retain 'b too.
    let parent = ParentDecl {
        ident: "Lived".to_string(),
        generics: Generics {
            params: vec![
                GenericParam::Lifetime {
                    name: "a".to_string(),
                    bounds: vec!["b".to_string()],
                },
                GenericParam::Lifetime {
                    name: "b".to_string(),
                    bounds: vec![],
                },
            ],
            where_clause: vec![],
        },
        variants: vec![ParentVariant {
            variant: Variant {
                ident: "Holder".to_string(),
                style: FieldsStyle::Positional,
                fields: vec![Field {
                    name: None,
                    ty: TypeExpr::Reference(Some("a".to_string()), Box::new(path1("str"))),
                }],
            },
            children: vec![ChildRef {
                child: "Short".to_string(),
                with_types: None,
            }],
        }],
    };
    let children = vec!["Short".to_string()];
    let exp = subenum(&parent, &children, &vec![]).unwrap();
    let short = &exp.enums[0];
    assert_eq!(
        short.generics.params,
        vec![
            GenericParam::Lifetime {
                name: "a".to_string(),
                bounds: vec![],
            },
            GenericParam::Lifetime {
                name: "b".to_string(),
                bounds: vec![],
            },
        ]
    );
    assert_eq!(
        short.generics.where_clause,
        vec![Predicate::Lifetime {
            lifetime: "a".to_string(),
            bounds: vec!["b".to_string()],
        }]
    );
}

#[test]
fn test_empty_child_reduces_to_nothing() {
    // A declared child that no variant joins: no variants, no parameters,
    // no where clause.
    let parent = ParentDecl {
        ident: "Lone".to_string(),
        generics: Generics {
            params: vec![type_param("T", vec![Bound::Trait(vec![seg("Clone")])])],
            where_clause: vec![],
        },
        variants: vec![uses("Used", "T", "Occupied")],
    };
    let children = vec!["Occupied".to_string(), "Empty".to_string()];
    let exp = subenum(&parent, &children, &vec![]).unwrap();
    let empty = &exp.enums[1];
    assert_eq!(empty.ident, "Empty");
    assert!(empty.variants.is_empty());
    assert!(empty.generics.params.is_empty());
    assert!(empty.generics.where_clause.is_empty());
}
