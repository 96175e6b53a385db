use subenum::convert::{try_from_parent, EnumValue};
use subenum::enums::{Field, FieldsStyle, Variant};
use subenum::generics::{GenericParam, Generics};
use subenum::ty::{GenArg, PathSeg, SegArgs, TypeExpr};
use subenum::{subenum, ChildRef, ParentDecl, ParentVariant};

fn seg(name: &str) -> PathSeg {
    PathSeg {
        name: name.to_string(),
        args: SegArgs::Absent,
    }
}

fn path1(name: &str) -> TypeExpr {
    TypeExpr::Path(None, vec![seg(name)])
}

/// `&'lt Referent<'arg>`: a reference with its own lifetime around a path
/// carrying a lifetime argument.
fn ref_with_lt(lt: &str, referent: &str, arg: &str) -> TypeExpr {
    TypeExpr::Reference(
        Some(lt.to_string()),
        Box::new(TypeExpr::Path(
            None,
            vec![PathSeg {
                name: referent.to_string(),
                args: SegArgs::Angle(vec![GenArg::Lifetime(arg.to_string())]),
            }],
        )),
    )
}

fn lt_param(name: &str) -> GenericParam {
    GenericParam::Lifetime {
        name: name.to_string(),
        bounds: vec![],
    }
}

#[test]
fn test_expression() {
    // pub enum Expression<'a, 'b, 'c> {
    //     CommandWithNoArgs(&'b SomeCommand<'a>),        -> Command
    //     CommandWith1Arg(&'b SomeOtherCommand<'a>),     -> Command
    //     Lit(&'b str),                                  -> Literal
    //     SomeThing { x: SomeCommand<'c>,
    //                 y: Box<Expression<'a, 'b, 'b>> },  -> Weird
    // }
    let parent = ParentDecl {
        ident: "Expression".to_string(),
        generics: Generics {
            params: vec![lt_param("a"), lt_param("b"), lt_param("c")],
            where_clause: vec![],
        },
        variants: vec![
            ParentVariant {
                variant: Variant {
                    ident: "CommandWithNoArgs".to_string(),
                    style: FieldsStyle::Positional,
                    fields: vec![Field {
                        name: None,
                        ty: ref_with_lt("b", "SomeCommand", "a"),
                    }],
                },
                children: vec![ChildRef {
                    child: "Command".to_string(),
                    with_types: None,
                }],
            },
            ParentVariant {
                variant: Variant {
                    ident: "CommandWith1Arg".to_string(),
                    style: FieldsStyle::Positional,
                    fields: vec![Field {
                        name: None,
                        ty: ref_with_lt("b", "SomeOtherCommand", "a"),
                    }],
                },
                children: vec![ChildRef {
                    child: "Command".to_string(),
                    with_types: None,
                }],
            },
            ParentVariant {
                variant: Variant {
                    ident: "Lit".to_string(),
                    style: FieldsStyle::Positional,
                    fields: vec![Field {
                        name: None,
                        ty: TypeExpr::Reference(Some("b".to_string()), Box::new(path1("str"))),
                    }],
                },
                children: vec![ChildRef {
                    child: "Literal".to_string(),
                    with_types: None,
                }],
            },
            ParentVariant {
                variant: Variant {
                    ident: "SomeThing".to_string(),
                    style: FieldsStyle::Named,
                    fields: vec![
                        Field {
                            name: Some("x".to_string()),
                            ty: TypeExpr::Path(
                                None,
                                vec![PathSeg {
                                    name: "SomeCommand".to_string(),
                                    args: SegArgs::Angle(vec![GenArg::Lifetime(
                                        "c".to_string(),
                                    )]),
                                }],
                            ),
                        },
                        Field {
                            name: Some("y".to_string()),
                            ty: TypeExpr::Path(
                                None,
                                vec![PathSeg {
                                    name: "Box".to_string(),
                                    args: SegArgs::Angle(vec![GenArg::Type(Box::new(
                                        TypeExpr::Path(
                                            None,
                                            vec![PathSeg {
                                                name: "Expression".to_string(),
                                                args: SegArgs::Angle(vec![
                                                    GenArg::Lifetime("a".to_string()),
                                                    GenArg::Lifetime("b".to_string()),
                                                    GenArg::Lifetime("b".to_string()),
                                                ]),
                                            }],
                                        ),
                                    ))]),
                                }],
                            ),
                        },
                    ],
                },
                children: vec![ChildRef {
                    child: "Weird".to_string(),
                    with_types: None,
                }],
            },
        ],
    };

    let children = vec![
        "Command".to_string(),
        "Literal".to_string(),
        "Weird".to_string(),
    ];
    let exp = subenum(&parent, &children, &vec![]).unwrap();

    // Command uses 'a and 'b; Literal only 'b; Weird all three.
    assert_eq!(
        exp.enums[0].generics.params,
        vec![lt_param("a"), lt_param("b")]
    );
    assert_eq!(exp.enums[1].generics.params, vec![lt_param("b")]);
    assert_eq!(
        exp.enums[2].generics.params,
        vec![lt_param("a"), lt_param("b"), lt_param("c")]
    );

    let command = &exp.enums[0];
    let d: EnumValue<&str> = EnumValue {
        variant: "CommandWithNoArgs".to_string(),
        fields: vec!["hello"],
    };
    let e: EnumValue<&str> = EnumValue {
        variant: "CommandWith1Arg".to_string(),
        fields: vec!["world"],
    };

    assert_eq!(try_from_parent(command, d.clone()), Ok(d));
    assert_eq!(try_from_parent(command, e.clone()), Ok(e));
}
