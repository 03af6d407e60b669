use rlua_builders::derive::{
    builder_for_fields, builder_for_named, builder_for_unnamed, check_default, check_field,
    check_fields, classify_field, create_type_and_unwrap, default_literal, enum_builder,
    find_default, function_struct_builder, self_struct_builder, struct_builder, DEFAULT,
};
use rlua_builders::{
    check_definition, derive_struct_builder, derive_user_data, Attribute, Builder, Constructor,
    Data, DeriveInput, Field, FieldSpec, Fields, GenerationError, LuaBuilderImpl, Meta, ShapeKind,
    Target, UserDataImpl, Variant,
};

fn attr(path: &str, meta: Option<Meta>) -> Attribute {
    Attribute { path: path.to_owned(), meta }
}

fn value(literal: &str) -> Option<Meta> {
    Some(Meta::NameValue(literal.to_owned()))
}

fn plain(ty: &str) -> Field {
    Field { ty: ty.to_owned(), attrs: vec![] }
}

fn with_default(ty: &str, literal: &str) -> Field {
    Field { ty: ty.to_owned(), attrs: vec![attr("default", value(literal))] }
}

fn malformed(ty: &str, meta: Option<Meta>) -> Field {
    Field { ty: ty.to_owned(), attrs: vec![attr("default", meta)] }
}

fn spec(ty: &str, default: Option<&str>) -> FieldSpec {
    FieldSpec { ty: ty.to_owned(), default: default.map(|d| d.to_owned()) }
}

fn variant_target(ty: &str, variant: &str) -> Target {
    Target::Variant { ty: ty.to_owned(), variant: variant.to_owned() }
}

#[test]
fn the_default_attribute_is_called_default() {
    assert_eq!(DEFAULT, "default");
}

#[test]
fn unit_struct_builder_is_the_value_itself() {
    let input = DeriveInput { ident: "Unit".to_owned(), data: Data::Struct(Fields::Unit) };
    assert_eq!(check_definition(&input), Ok(()));
    assert_eq!(
        derive_struct_builder(&input),
        LuaBuilderImpl {
            name: "Unit".to_owned(),
            builder: Builder::Value(Constructor {
                target: Target::SelfType,
                shape: ShapeKind::NoFields,
            }),
        }
    );
}

#[test]
fn tuple_struct_builder_is_a_function_of_its_items() {
    let input = DeriveInput {
        ident: "Pair".to_owned(),
        data: Data::Struct(Fields::Unnamed(vec![plain("i32"), plain("String")])),
    };
    assert_eq!(check_definition(&input), Ok(()));
    assert_eq!(
        derive_struct_builder(&input),
        LuaBuilderImpl {
            name: "Pair".to_owned(),
            builder: Builder::Function(Constructor {
                target: Target::SelfType,
                shape: ShapeKind::PositionalFields(vec![spec("i32", None), spec("String", None)]),
            }),
        }
    );
}

#[test]
fn tuple_struct_without_items_is_still_a_function() {
    let input =
        DeriveInput { ident: "Empty".to_owned(), data: Data::Struct(Fields::Unnamed(vec![])) };
    assert_eq!(check_definition(&input), Ok(()));
    assert_eq!(
        derive_struct_builder(&input).builder,
        Builder::Function(Constructor {
            target: Target::SelfType,
            shape: ShapeKind::PositionalFields(vec![]),
        })
    );
}

#[test]
fn named_struct_builder_is_a_function_of_a_table() {
    let input = DeriveInput {
        ident: "Person".to_owned(),
        data: Data::Struct(Fields::Named(vec![
            ("name".to_owned(), plain("String")),
            ("age".to_owned(), plain("u8")),
        ])),
    };
    assert_eq!(check_definition(&input), Ok(()));
    assert_eq!(
        derive_struct_builder(&input),
        LuaBuilderImpl {
            name: "Person".to_owned(),
            builder: Builder::Function(Constructor {
                target: Target::SelfType,
                shape: ShapeKind::NamedFields(vec![
                    ("name".to_owned(), spec("String", None)),
                    ("age".to_owned(), spec("u8", None)),
                ]),
            }),
        }
    );
}

#[test]
fn enum_builder_is_a_table_of_its_variants_in_order() {
    let variants = vec![
        Variant { ident: "Coins".to_owned(), fields: Fields::Unnamed(vec![plain("u32")]) },
        Variant {
            ident: "Book".to_owned(),
            fields: Fields::Named(vec![
                ("name".to_owned(), plain("String")),
                ("read".to_owned(), with_default("bool", "true")),
            ]),
        },
        Variant { ident: "Knowledge".to_owned(), fields: Fields::Unit },
    ];
    let expected = LuaBuilderImpl {
        name: "Valuables".to_owned(),
        builder: Builder::Table(vec![
            (
                "Coins".to_owned(),
                Constructor {
                    target: variant_target("Valuables", "Coins"),
                    shape: ShapeKind::PositionalFields(vec![spec("u32", None)]),
                },
            ),
            (
                "Book".to_owned(),
                Constructor {
                    target: variant_target("Valuables", "Book"),
                    shape: ShapeKind::NamedFields(vec![
                        ("name".to_owned(), spec("String", None)),
                        ("read".to_owned(), spec("bool", Some("true"))),
                    ]),
                },
            ),
            (
                "Knowledge".to_owned(),
                Constructor {
                    target: variant_target("Valuables", "Knowledge"),
                    shape: ShapeKind::NoFields,
                },
            ),
        ]),
    };
    let input = DeriveInput { ident: "Valuables".to_owned(), data: Data::Enum(variants.clone()) };
    assert_eq!(check_definition(&input), Ok(()));
    assert_eq!(enum_builder("Valuables".to_owned(), &variants), expected.clone());
    assert_eq!(derive_struct_builder(&input), expected);
}

#[test]
fn enum_without_variants_has_an_empty_table() {
    let input = DeriveInput { ident: "Never".to_owned(), data: Data::Enum(vec![]) };
    assert_eq!(check_definition(&input), Ok(()));
    assert_eq!(derive_struct_builder(&input).builder, Builder::Table(vec![]));
}

#[test]
fn variant_is_built_as_a_struct_with_the_same_fields_is() {
    let fields = Fields::Named(vec![
        ("foo".to_owned(), plain("String")),
        ("baz".to_owned(), with_default("u8", "10")),
    ]);
    assert_eq!(check_fields(&fields), Ok(()));
    let alone = struct_builder("Named".to_owned(), &fields);
    let table = enum_builder(
        "ComplexEnum".to_owned(),
        &vec![Variant { ident: "Named".to_owned(), fields: fields.clone() }],
    );
    let member = table.builder.select("Named").unwrap();
    let alone = match &alone.builder {
        Builder::Function(c) => c,
        other => panic!("not a function: {:?}", other),
    };
    assert_eq!(member.shape, alone.shape);
    assert_eq!(member.target, variant_target("ComplexEnum", "Named"));
    assert_eq!(alone.target, Target::SelfType);
}

#[test]
fn union_is_refused() {
    let input = DeriveInput { ident: "Bits".to_owned(), data: Data::Union };
    assert_eq!(check_definition(&input), Err(GenerationError::UnsupportedData));
}

#[test]
fn error_messages() {
    assert_eq!(GenerationError::InvalidDefault.message(), "Invalid syntax for default");
    assert_eq!(GenerationError::UnsupportedData.message(), "Must annotate struct or enum");
}

#[test]
fn default_literal_is_read_from_the_attribute() {
    assert_eq!(check_field(&with_default("u8", "10")), Ok(()));
    assert_eq!(classify_field(&with_default("u8", "10")), spec("u8", Some("10")));
    assert_eq!(classify_field(&with_default("bool", "true")), spec("bool", Some("true")));
    assert_eq!(classify_field(&with_default("i32", "- 1")), spec("i32", Some("- 1")));
    assert_eq!(
        classify_field(&with_default("&'static str", "\"none\"")),
        spec("&'static str", Some("\"none\""))
    );
}

#[test]
fn field_without_default_attribute_has_no_default() {
    assert_eq!(check_field(&plain("i32")), Ok(()));
    assert_eq!(classify_field(&plain("i32")), spec("i32", None));
    let other = Field {
        ty: "i32".to_owned(),
        attrs: vec![attr("doc", value("\"a number\"")), attr("serde", Some(Meta::List))],
    };
    assert_eq!(check_field(&other), Ok(()));
    assert_eq!(classify_field(&other), spec("i32", None));
}

#[test]
fn attributes_that_are_not_read_may_have_any_form() {
    let field = Field {
        ty: "i32".to_owned(),
        attrs: vec![attr("precondition", None), attr("deprecated", Some(Meta::Path)), attr("default", value("3"))],
    };
    assert_eq!(check_field(&field), Ok(()));
    assert_eq!(classify_field(&field), spec("i32", Some("3")));
}

#[test]
fn the_first_default_attribute_counts() {
    let twice = Field {
        ty: "u8".to_owned(),
        attrs: vec![attr("doc", value("\"x\"")), attr("default", value("1")), attr("default", value("2"))],
    };
    assert_eq!(find_default(&twice.attrs), Some(&twice.attrs[1]));
    assert_eq!(check_field(&twice), Ok(()));
    assert_eq!(classify_field(&twice), spec("u8", Some("1")));
    let bad_first = Field {
        ty: "u8".to_owned(),
        attrs: vec![attr("default", Some(Meta::List)), attr("default", value("2"))],
    };
    assert_eq!(check_field(&bad_first), Err(GenerationError::InvalidDefault));
    let bad_second = Field {
        ty: "u8".to_owned(),
        attrs: vec![attr("default", value("1")), attr("default", Some(Meta::List))],
    };
    assert_eq!(check_field(&bad_second), Ok(()));
    assert_eq!(classify_field(&bad_second), spec("u8", Some("1")));
}

#[test]
fn find_default_finds_none_among_other_attributes() {
    assert_eq!(find_default(&vec![]), None);
    assert_eq!(find_default(&vec![attr("doc", value("\"x\"")), attr("defaults", value("1"))]), None);
    assert_eq!(
        find_default(&vec![attr("Default", value("1")), attr("my :: default", value("1"))]),
        None
    );
}

#[test]
fn malformed_default_is_refused() {
    for meta in [None, Some(Meta::Path), Some(Meta::List)] {
        assert_eq!(check_default(&meta), Err(GenerationError::InvalidDefault));
        assert_eq!(
            check_field(&malformed("u8", meta.clone())),
            Err(GenerationError::InvalidDefault),
            "{:?}",
            meta
        );
    }
}

#[test]
fn default_literal_takes_only_a_name_and_a_value() {
    assert_eq!(check_default(&value("10")), Ok(()));
    assert_eq!(default_literal(&value("10")), "10");
    assert_eq!(default_literal(&value("")), "");
    assert_eq!(check_default(&Some(Meta::Path)), Err(GenerationError::InvalidDefault));
    assert_eq!(check_default(&Some(Meta::List)), Err(GenerationError::InvalidDefault));
    assert_eq!(check_default(&None), Err(GenerationError::InvalidDefault));
}

#[test]
fn create_type_and_unwrap_keeps_the_order_of_the_fields() {
    let fields = vec![plain("f32"), malformed("Option<i32>", Some(Meta::Path)), plain("Tup")];
    assert_eq!(check_fields(&Fields::Unnamed(fields)), Err(GenerationError::InvalidDefault));
    let fields = vec![plain("f32"), with_default("i32", "7"), plain("Tup")];
    assert_eq!(check_fields(&Fields::Unnamed(fields.clone())), Ok(()));
    assert_eq!(
        create_type_and_unwrap(&fields),
        vec![spec("f32", None), spec("i32", Some("7")), spec("Tup", None)]
    );
    assert_eq!(create_type_and_unwrap(&vec![]), vec![]);
}

#[test]
fn defaults_are_read_on_positional_fields_too() {
    assert_eq!(
        builder_for_unnamed(Target::SelfType, &vec![with_default("u8", "10")]),
        Constructor {
            target: Target::SelfType,
            shape: ShapeKind::PositionalFields(vec![spec("u8", Some("10"))]),
        }
    );
}

#[test]
fn builder_for_named_keeps_names_and_order() {
    let fields = vec![
        ("label".to_owned(), plain("String")),
        ("qty".to_owned(), with_default("u8", "10")),
    ];
    assert_eq!(
        builder_for_named(variant_target("E", "Item"), &fields),
        Constructor {
            target: variant_target("E", "Item"),
            shape: ShapeKind::NamedFields(vec![
                ("label".to_owned(), spec("String", None)),
                ("qty".to_owned(), spec("u8", Some("10"))),
            ]),
        }
    );
    let bad = vec![("label".to_owned(), malformed("String", None)), ("qty".to_owned(), plain("u8"))];
    assert_eq!(check_fields(&Fields::Named(bad)), Err(GenerationError::InvalidDefault));
}

#[test]
fn builder_for_fields_follows_the_form_of_the_fields() {
    assert_eq!(check_fields(&Fields::Unit), Ok(()));
    assert_eq!(builder_for_fields(Target::SelfType, &Fields::Unit).shape, ShapeKind::NoFields);
    assert_eq!(
        builder_for_fields(Target::SelfType, &Fields::Unnamed(vec![plain("i32")])).shape,
        ShapeKind::PositionalFields(vec![spec("i32", None)])
    );
    assert_eq!(
        builder_for_fields(Target::SelfType, &Fields::Named(vec![("a".to_owned(), plain("i32"))]))
            .shape,
        ShapeKind::NamedFields(vec![("a".to_owned(), spec("i32", None))])
    );
}

#[test]
fn function_and_self_builders_wrap_the_constructor() {
    let c = Constructor { target: Target::SelfType, shape: ShapeKind::NoFields };
    assert_eq!(
        function_struct_builder("S".to_owned(), c.clone()),
        LuaBuilderImpl { name: "S".to_owned(), builder: Builder::Function(c.clone()) }
    );
    assert_eq!(
        self_struct_builder("S".to_owned(), c.clone()),
        LuaBuilderImpl { name: "S".to_owned(), builder: Builder::Value(c) }
    );
}

#[test]
fn malformed_default_in_any_field_refuses_the_whole_type() {
    let good = Variant { ident: "Good".to_owned(), fields: Fields::Unnamed(vec![plain("i32")]) };
    let bad = Variant {
        ident: "Bad".to_owned(),
        fields: Fields::Named(vec![("x".to_owned(), malformed("i32", Some(Meta::List)))]),
    };
    let input = DeriveInput {
        ident: "E".to_owned(),
        data: Data::Enum(vec![good.clone(), bad, good]),
    };
    assert_eq!(check_definition(&input), Err(GenerationError::InvalidDefault));
    let input = DeriveInput {
        ident: "S".to_owned(),
        data: Data::Struct(Fields::Unnamed(vec![plain("i32"), malformed("i32", None)])),
    };
    assert_eq!(check_definition(&input), Err(GenerationError::InvalidDefault));
}

#[test]
fn user_data_is_derived_for_any_definition() {
    for data in [Data::Struct(Fields::Unit), Data::Enum(vec![]), Data::Union] {
        let input = DeriveInput { ident: "Thing".to_owned(), data };
        assert_eq!(derive_user_data(&input), UserDataImpl { name: "Thing".to_owned() });
    }
}
