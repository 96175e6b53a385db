use subenum::convert::{try_from_parent, EnumValue};
use subenum::enums::{Field, FieldsStyle, Variant};
use subenum::generics::{GenericParam, Generics, Predicate};
use subenum::ty::{Bound, GenArg, PathSeg, SegArgs, TypeExpr};
use subenum::{subenum, ChildRef, ParentDecl, ParentVariant};

fn seg(name: &str) -> PathSeg {
    PathSeg {
        name: name.to_string(),
        args: SegArgs::Absent,
    }
}

fn path(names: &[&str]) -> TypeExpr {
    TypeExpr::Path(None, names.iter().map(|n| seg(n)).collect())
}

fn trait_bound(names: &[&str]) -> Bound {
    Bound::Trait(names.iter().map(|n| seg(n)).collect())
}

fn tagged(variant: Variant, children: &[&str]) -> ParentVariant {
    ParentVariant {
        variant,
        children: children
            .iter()
            .map(|c| ChildRef {
                child: c.to_string(),
                with_types: None,
            })
            .collect(),
    }
}

// The parent enumeration:
//   enum Pipeline<P>
//   where
//       P: Processor,
//       P::Input: PartialEq + std::fmt::Debug,
//       P::Output: Clone,
//   {
//       Source(P::Input),   -> InputOnly
//       Sink(P::Output),    -> OutputOnly
//   }
fn pipeline() -> ParentDecl {
    ParentDecl {
        ident: "Pipeline".to_string(),
        generics: Generics {
            params: vec![GenericParam::Type {
                name: "P".to_string(),
                bounds: vec![],
            }],
            where_clause: vec![
                Predicate::Type {
                    subject: path(&["P"]),
                    bounds: vec![trait_bound(&["Processor"])],
                },
                Predicate::Type {
                    subject: path(&["P", "Input"]),
                    bounds: vec![
                        trait_bound(&["PartialEq"]),
                        trait_bound(&["std", "fmt", "Debug"]),
                    ],
                },
                Predicate::Type {
                    subject: path(&["P", "Output"]),
                    bounds: vec![trait_bound(&["Clone"])],
                },
            ],
        },
        variants: vec![
            tagged(
                Variant {
                    ident: "Source".to_string(),
                    style: FieldsStyle::Positional,
                    fields: vec![Field {
                        name: None,
                        ty: path(&["P", "Input"]),
                    }],
                },
                &["InputOnly"],
            ),
            tagged(
                Variant {
                    ident: "Sink".to_string(),
                    style: FieldsStyle::Positional,
                    fields: vec![Field {
                        name: None,
                        ty: path(&["P", "Output"]),
                    }],
                },
                &["OutputOnly"],
            ),
        ],
    }
}

#[test]
fn test_associated_type_usage() {
    let parent = pipeline();
    let children = vec!["InputOnly".to_string(), "OutputOnly".to_string()];
    let exp = subenum(&parent, &children, &vec![]).unwrap();

    // The variant field is `P::Input`, a projection of `P`: the reduction
    // must realize that `P` is required and keep it declared.
    let input_only = &exp.enums[0];
    assert_eq!(
        input_only.generics.params,
        vec![GenericParam::Type {
            name: "P".to_string(),
            bounds: vec![],
        }]
    );

    let src_audio: EnumValue<u64> = try_from_parent(
        input_only,
        EnumValue {
            variant: "Source".to_string(),
            fields: vec![1, 2, 3],
        },
    )
    .unwrap();
    let src_video: EnumValue<u64> = try_from_parent(
        input_only,
        EnumValue {
            variant: "Source".to_string(),
            fields: vec![10, 20],
        },
    )
    .unwrap();

    match src_audio.variant.as_str() {
        "Source" => assert_eq!(src_audio.fields.len(), 3),
        _ => unreachable!(),
    }
    match src_video.variant.as_str() {
        "Source" => assert_eq!(src_video.fields.len(), 2),
        _ => unreachable!(),
    }

    // Similarly for `P::Output`.
    let output_only = &exp.enums[1];
    let sink: EnumValue<f64> = try_from_parent(
        output_only,
        EnumValue {
            variant: "Sink".to_string(),
            fields: vec![0.0, 1.0],
        },
    )
    .unwrap();
    match sink.variant.as_str() {
        "Sink" => assert_eq!(sink.fields.len(), 2),
        _ => unreachable!(),
    }
}

#[test]
fn test_projection_keeps_constraints() {
    // Every predicate of the parent constrains `P`, so each is retained in
    // the child even though only one field type seeded the closure.
    let parent = pipeline();
    let children = vec!["InputOnly".to_string(), "OutputOnly".to_string()];
    let exp = subenum(&parent, &children, &vec![]).unwrap();
    let input_only = &exp.enums[0];
    assert_eq!(input_only.generics.where_clause.len(), 3);
    assert_eq!(
        input_only.generics.where_clause[0],
        Predicate::Type {
            subject: TypeExpr::Path(
                None,
                vec![PathSeg {
                    name: "P".to_string(),
                    args: SegArgs::Absent,
                }],
            ),
            bounds: vec![Bound::Trait(vec![PathSeg {
                name: "Processor".to_string(),
                args: SegArgs::Absent,
            }])],
        }
    );
}

// Keep the generic-argument constructor exercised so the helper stays
// honest about angle-bracketed arguments.
#[test]
fn test_projection_inside_generic_argument() {
    // A field `Vec<P::Input>` must still seed `P`.
    let field_ty = TypeExpr::Path(
        None,
        vec![PathSeg {
            name: "Vec".to_string(),
            args: SegArgs::Angle(vec![GenArg::Type(Box::new(path(&["P", "Input"])))]),
        }],
    );
    let mut parent = pipeline();
    parent.variants[0].variant.fields[0].ty = field_ty;
    let children = vec!["InputOnly".to_string(), "OutputOnly".to_string()];
    let exp = subenum(&parent, &children, &vec![]).unwrap();
    assert_eq!(exp.enums[0].generics.params.len(), 1);
}
