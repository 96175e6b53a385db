use subenum::convert::{try_from_parent, EnumValue};
use subenum::enums::{Field, FieldsStyle, Variant};
use subenum::generics::{GenericParam, Generics};
use subenum::ty::{ConstArg, GenArg, PathSeg, SegArgs, TypeExpr};
use subenum::{subenum, ChildRef, ParentDecl, ParentVariant};

fn seg(name: &str) -> PathSeg {
    PathSeg {
        name: name.to_string(),
        args: SegArgs::Absent,
    }
}

fn path1(name: &str) -> TypeExpr {
    TypeExpr::Path(None, vec![seg(name)])
}

fn tagged(variant: Variant, children: &[&str]) -> ParentVariant {
    ParentVariant {
        variant,
        children: children
            .iter()
            .map(|c| ChildRef {
                child: c.to_string(),
                with_types: None,
            })
            .collect(),
    }
}

// enum Buffer<T, const N: usize> {
//     Inline([T; N]),   -> SmallArray
//     Heap(Vec<T>),     -> LargeArray
//     Empty,            -> SmallArray, LargeArray
// }
fn buffer() -> ParentDecl {
    ParentDecl {
        ident: "Buffer".to_string(),
        generics: Generics {
            params: vec![
                GenericParam::Type {
                    name: "T".to_string(),
                    bounds: vec![],
                },
                GenericParam::Const {
                    name: "N".to_string(),
                    ty: path1("usize"),
                },
            ],
            where_clause: vec![],
        },
        variants: vec![
            tagged(
                Variant {
                    ident: "Inline".to_string(),
                    style: FieldsStyle::Positional,
                    fields: vec![Field {
                        name: None,
                        ty: TypeExpr::Array(
                            Box::new(path1("T")),
                            ConstArg::Named("N".to_string()),
                        ),
                    }],
                },
                &["SmallArray"],
            ),
            tagged(
                Variant {
                    ident: "Heap".to_string(),
                    style: FieldsStyle::Positional,
                    fields: vec![Field {
                        name: None,
                        ty: TypeExpr::Path(
                            None,
                            vec![PathSeg {
                                name: "Vec".to_string(),
                                args: SegArgs::Angle(vec![GenArg::Type(Box::new(path1("T")))]),
                            }],
                        ),
                    }],
                },
                &["LargeArray"],
            ),
            tagged(
                Variant {
                    ident: "Empty".to_string(),
                    style: FieldsStyle::Unit,
                    fields: vec![],
                },
                &["SmallArray", "LargeArray"],
            ),
        ],
    }
}

#[test]
fn test_const_generics_signature() {
    let size: usize = 4;
    let parent = buffer();
    let children = vec!["SmallArray".to_string(), "LargeArray".to_string()];
    let exp = subenum(&parent, &children, &vec![]).unwrap();

    // 1. SmallArray preserves <T, const N: usize>: the array's element type
    // mentions T and its length mentions N.
    let small_array = &exp.enums[0];
    assert_eq!(
        small_array.generics.params,
        vec![
            GenericParam::Type {
                name: "T".to_string(),
                bounds: vec![],
            },
            GenericParam::Const {
                name: "N".to_string(),
                ty: path1("usize"),
            },
        ]
    );
    let small: EnumValue<u64> = try_from_parent(
        small_array,
        EnumValue {
            variant: "Inline".to_string(),
            fields: vec![1, 2, 3, 4],
        },
    )
    .unwrap();
    match small.variant.as_str() {
        "Inline" => {
            assert_eq!(small.fields.len(), size);
            assert_eq!(small.fields[0], 1);
        }
        _ => panic!("Expected Inline variant"),
    }

    // 2. LargeArray preserves <T> only: N is dropped.
    let large_array = &exp.enums[1];
    assert_eq!(
        large_array.generics.params,
        vec![GenericParam::Type {
            name: "T".to_string(),
            bounds: vec![],
        }]
    );
    let large: EnumValue<u64> = try_from_parent(
        large_array,
        EnumValue {
            variant: "Heap".to_string(),
            fields: vec![10, 20],
        },
    )
    .unwrap();
    match large.variant.as_str() {
        "Heap" => assert_eq!(large.fields.len(), 2),
        _ => panic!("Expected Heap variant"),
    }

    // 3. The shared unit variant exists on both children.
    let empty: EnumValue<u64> = try_from_parent(
        small_array,
        EnumValue {
            variant: "Empty".to_string(),
            fields: vec![],
        },
    )
    .unwrap();
    assert_eq!(
        empty,
        EnumValue {
            variant: "Empty".to_string(),
            fields: vec![],
        }
    );
}
