use subenum::convert::{from_child, EnumValue};
use subenum::enums::{Field, FieldsStyle, Variant};
use subenum::generics::Generics;
use subenum::ty::{PathSeg, SegArgs, TypeExpr};
use subenum::{subenum, ChildRef, ParentDecl, ParentVariant};

fn path1(name: &str) -> TypeExpr {
    TypeExpr::Path(
        None,
        vec![PathSeg {
            name: name.to_string(),
            args: SegArgs::Absent,
        }],
    )
}

fn one_field_variant(ident: &str, ty: TypeExpr) -> Variant {
    Variant {
        ident: ident.to_string(),
        style: FieldsStyle::Positional,
        fields: vec![Field { name: None, ty }],
    }
}

// pub enum BigEnum {
//     A(u32),                                  -> MiniEnum
//     B(BigIntWrapper),                        -> MiniEnum(with(SmallIntWrapper))
//     C(String),                               (not in any child)
// }
fn big_enum() -> ParentDecl {
    ParentDecl {
        ident: "BigEnum".to_string(),
        generics: Generics {
            params: vec![],
            where_clause: vec![],
        },
        variants: vec![
            ParentVariant {
                variant: one_field_variant("A", path1("u32")),
                children: vec![ChildRef {
                    child: "MiniEnum".to_string(),
                    with_types: None,
                }],
            },
            ParentVariant {
                variant: one_field_variant("B", path1("BigIntWrapper")),
                children: vec![ChildRef {
                    child: "MiniEnum".to_string(),
                    with_types: Some(vec![path1("SmallIntWrapper")]),
                }],
            },
            ParentVariant {
                variant: one_field_variant("C", path1("String")),
                children: vec![],
            },
        ],
    }
}

#[test]
fn test_nested_type_replacement() {
    let parent = big_enum();
    let children = vec!["MiniEnum".to_string()];
    let _exp = subenum(&parent, &children, &vec![]).unwrap();

    // A. Construct the child value with the replacement payload.
    let mini: EnumValue<u64> = EnumValue {
        variant: "B".to_string(),
        fields: vec![42],
    };

    // B. Convert it to the parent: widening is lossless, and the generated
    // conversion would run the payload through its `Into` impl.
    let big = from_child(mini);

    // C. The value carries over unchanged.
    let expected: EnumValue<u64> = EnumValue {
        variant: "B".to_string(),
        fields: vec![42],
    };
    assert_eq!(big, expected);
}

#[test]
fn test_field_types_in_generated_struct() {
    // The child's variant B must hold the replacement type, not the
    // parent's original field type.
    let parent = big_enum();
    let children = vec!["MiniEnum".to_string()];
    let exp = subenum(&parent, &children, &vec![]).unwrap();
    let mini_enum = &exp.enums[0];

    assert_eq!(mini_enum.variants.len(), 2);
    assert_eq!(mini_enum.variants[0].fields[0].ty, path1("u32"));
    assert_eq!(mini_enum.variants[1].fields[0].ty, path1("SmallIntWrapper"));

    let val: EnumValue<u64> = EnumValue {
        variant: "B".to_string(),
        fields: vec![100],
    };
    if val.variant.as_str() == "B" {
        assert_eq!(val.fields[0], 100);
    } else {
        panic!("Wrong variant");
    }
}
