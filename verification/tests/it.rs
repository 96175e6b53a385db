use subenum::convert::{from_child, try_from_parent, try_from_sibling, ConvertError, EnumValue};
use subenum::enums::{Field, FieldsStyle, Variant};
use subenum::generics::{GenericParam, Generics};
use subenum::ty::{PathSeg, SegArgs, TypeExpr};
use subenum::{subenum, ChildRef, ParentDecl, ParentVariant};

fn path1(name: &str) -> TypeExpr {
    TypeExpr::Path(
        None,
        vec![PathSeg {
            name: name.to_string(),
            args: SegArgs::Absent,
        }],
    )
}

fn positional(ident: &str, tys: &[TypeExpr], children: &[&str]) -> ParentVariant {
    ParentVariant {
        variant: Variant {
            ident: ident.to_string(),
            style: if tys.is_empty() {
                FieldsStyle::Unit
            } else {
                FieldsStyle::Positional
            },
            fields: tys
                .iter()
                .map(|t| Field {
                    name: None,
                    ty: t.clone(),
                })
                .collect(),
        },
        children: children
            .iter()
            .map(|c| ChildRef {
                child: c.to_string(),
                with_types: None,
            })
            .collect(),
    }
}

// enum Snoo<T> { A(T) -> Floop }
fn snoo() -> ParentDecl {
    ParentDecl {
        ident: "Snoo".to_string(),
        generics: Generics {
            params: vec![GenericParam::Type {
                name: "T".to_string(),
                bounds: vec![],
            }],
            where_clause: vec![],
        },
        variants: vec![positional("A", &[path1("T")], &["Floop"])],
    }
}

#[test]
fn test_snoo() {
    let parent = snoo();
    let children = vec!["Floop".to_string()];
    let exp = subenum(&parent, &children, &vec![]).unwrap();
    let floop = &exp.enums[0];

    let a: EnumValue<u64> = EnumValue {
        variant: "A".to_string(),
        fields: vec![3],
    };
    let b = try_from_parent(floop, a.clone()).unwrap();

    assert_eq!(a, b);
}

#[test]
fn test_round_trip_both_directions() {
    // A variant present in both parent and child converts back and forth
    // without any observable change.
    let parent = snoo();
    let children = vec!["Floop".to_string()];
    let exp = subenum(&parent, &children, &vec![]).unwrap();
    let floop = &exp.enums[0];

    let original: EnumValue<&str> = EnumValue {
        variant: "A".to_string(),
        fields: vec!["payload"],
    };
    let narrowed = try_from_parent(floop, original.clone()).unwrap();
    let widened = from_child(narrowed);
    assert_eq!(widened, original);

    let back = try_from_parent(floop, from_child(original.clone())).unwrap();
    assert_eq!(back, original);
}

#[test]
fn test_narrowing_failure_is_marker() {
    // A parent value whose variant is not in the child yields exactly the
    // dedicated marker error.
    let parent = ParentDecl {
        ident: "Foo".to_string(),
        generics: Generics {
            params: vec![],
            where_clause: vec![],
        },
        variants: vec![
            positional("Kept", &[], &["Bar"]),
            positional("Dropped", &[], &[]),
        ],
    };
    let children = vec!["Bar".to_string()];
    let exp = subenum(&parent, &children, &vec![]).unwrap();
    let bar = &exp.enums[0];

    let stray: EnumValue<u64> = EnumValue {
        variant: "Dropped".to_string(),
        fields: vec![],
    };
    assert_eq!(try_from_parent(bar, stray), Err(ConvertError));
}

#[test]
fn test_sibling_overlap() {
    // Two children with overlapping variant subsets, neither containing
    // the other: a sibling descriptor must exist, fallible both ways,
    // carrying the union of the retained parameters.
    let parent = ParentDecl {
        ident: "Pippy".to_string(),
        generics: Generics {
            params: vec![
                GenericParam::Type {
                    name: "T".to_string(),
                    bounds: vec![],
                },
                GenericParam::Type {
                    name: "U".to_string(),
                    bounds: vec![],
                },
            ],
            where_clause: vec![],
        },
        variants: vec![
            positional("A", &[path1("T")], &["Left"]),
            positional("B", &[], &["Left", "Right"]),
            positional("C", &[path1("U")], &["Right"]),
        ],
    };
    let children = vec!["Left".to_string(), "Right".to_string()];
    let exp = subenum(&parent, &children, &vec![]).unwrap();

    assert_eq!(exp.siblings.len(), 1);
    let s = &exp.siblings[0];
    assert_eq!(s.a, "Left");
    assert_eq!(s.b, "Right");
    assert_eq!(s.shared, vec!["B".to_string()]);
    assert!(s.a_to_b_fallible);
    assert!(s.b_to_a_fallible);
    // Union of each side's retained parameters, in parent order.
    assert_eq!(
        s.generics.params,
        vec![
            GenericParam::Type {
                name: "T".to_string(),
                bounds: vec![],
            },
            GenericParam::Type {
                name: "U".to_string(),
                bounds: vec![],
            },
        ]
    );

    // The shared variant converts between the siblings; a non-shared one
    // fails with the marker.
    let left = &exp.enums[0];
    let right = &exp.enums[1];
    let shared: EnumValue<u64> = EnumValue {
        variant: "B".to_string(),
        fields: vec![],
    };
    assert_eq!(
        try_from_sibling(right, shared.clone()),
        Ok(shared.clone())
    );
    let only_left: EnumValue<u64> = EnumValue {
        variant: "A".to_string(),
        fields: vec![7],
    };
    assert!(try_from_parent(left, only_left.clone()).is_ok());
    assert_eq!(try_from_sibling(right, only_left), Err(ConvertError));
}

#[test]
fn test_disjoint_children_have_no_sibling() {
    let parent = ParentDecl {
        ident: "Flippy".to_string(),
        generics: Generics {
            params: vec![],
            where_clause: vec![],
        },
        variants: vec![
            positional("A", &[], &["Flip"]),
            positional("B", &[], &["Flop"]),
        ],
    };
    let children = vec!["Flip".to_string(), "Flop".to_string()];
    let exp = subenum(&parent, &children, &vec![]).unwrap();
    assert_eq!(exp.siblings.len(), 0);
}
