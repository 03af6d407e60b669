use quote::ToTokens;
use rlua::{Context, FromLua, Function, Lua, MultiValue, Table, ToLua, UserData};
use rlua_builders::{
    check_definition, derive_struct_builder, derive_user_data, Attribute, Builder, Constructor,
    Data, DeriveInput, Field, Fields, FieldSpec, GenerationError, Instance, InstanceFields, Key,
    LuaBuilderImpl, Meta, Outcome, Request, ShapeKind, Target, Variant,
};

trait LuaBuilder<'s, T: ToLua<'s>>: UserData + Clone {
    fn builder(ctx: Context<'s>) -> rlua::Result<T>;
}

// The types of the test, each with the builder that is derived for it, written out.

#[derive(Clone, PartialEq, Debug)]
struct Unit;

impl UserData for Unit {}

impl<'s> LuaBuilder<'s, Self> for Unit {
    fn builder(ctx: rlua::Context<'s>) -> rlua::Result<Self> {
        let _ = ctx;
        Ok(Self)
    }
}

const UNIT: &str = "struct Unit;";

const UNIT_BUILDER: &str = "impl<'s> LuaBuilder<'s, Self> for Unit {
    fn builder(ctx: rlua::Context<'s>) -> rlua::Result<Self> {
        Ok(Self)
    }
}";

#[derive(Clone, PartialEq, Debug)]
struct Tup(i32, String);

impl UserData for Tup {}

impl<'s> LuaBuilder<'s, rlua::Function<'s>> for Tup {
    fn builder(ctx: rlua::Context<'s>) -> rlua::Result<rlua::Function<'s>> {
        ctx.create_function(|_, args: (i32, String)| Ok(Self(args.0, args.1)))
    }
}

const TUP: &str = "struct Tup(i32, String);";

const TUP_BUILDER: &str = "impl<'s> LuaBuilder<'s, rlua::Function<'s>> for Tup {
    fn builder(ctx: rlua::Context<'s>) -> rlua::Result<rlua::Function<'s>> {
        ctx.create_function(|_, args: (i32, String,)| { Ok(Self(args.0, args.1,)) })
    }
}";

#[derive(Clone, PartialEq, Debug)]
struct Named {
    a: i32,
    b: String,
}

impl UserData for Named {}

impl<'s> LuaBuilder<'s, rlua::Function<'s>> for Named {
    fn builder(ctx: rlua::Context<'s>) -> rlua::Result<rlua::Function<'s>> {
        ctx.create_function(|_, data: rlua::Table<'s>| {
            Ok(Self { a: data.get::<_, i32>("a")?, b: data.get::<_, String>("b")? })
        })
    }
}

const NAMED: &str = "struct Named { a: i32, b: String }";

const NAMED_BUILDER: &str = "impl<'s> LuaBuilder<'s, rlua::Function<'s>> for Named {
    fn builder(ctx: rlua::Context<'s>) -> rlua::Result<rlua::Function<'s>> {
        ctx.create_function(|_, data: rlua::Table<'s>| {
            Ok(Self {
                a: data.get::<_, i32>(stringify!(a))?,
                b: data.get::<_, String>(stringify!(b))?,
            })
        })
    }
}";

#[derive(Clone, PartialEq, Debug)]
enum ComplexEnum {
    Unit,
    Tup(f32, Option<i32>),
    Named { foo: String, baz: u8 },
    // also testing tuples with a single thing inside
    Composite(Tup),
}

impl UserData for ComplexEnum {}

impl<'s> LuaBuilder<'s, rlua::Table<'s>> for ComplexEnum {
    fn builder(ctx: rlua::Context<'s>) -> rlua::Result<rlua::Table<'s>> {
        let t = ctx.create_table()?;
        t.set("Unit", ComplexEnum::Unit)?;
        t.set(
            "Tup",
            ctx.create_function(|_, args: (f32, Option<i32>)| {
                Ok(ComplexEnum::Tup(args.0, args.1))
            })?,
        )?;
        t.set(
            "Named",
            ctx.create_function(|_, data: rlua::Table<'s>| {
                Ok(ComplexEnum::Named {
                    foo: data.get::<_, String>("foo")?,
                    baz: data.get::<_, ::std::option::Option<u8>>("baz")?.unwrap_or(10),
                })
            })?,
        )?;
        t.set(
            "Composite",
            ctx.create_function(|_, args: (Tup,)| Ok(ComplexEnum::Composite(args.0)))?,
        )?;
        Ok(t)
    }
}

const COMPLEX_ENUM: &str = "enum ComplexEnum {
    Unit,
    Tup(f32, Option<i32>),
    Named {
        foo: String,
        #[default = 10]
        baz: u8,
    },
    // also testing tuples with a single thing inside
    Composite(Tup),
}";

const COMPLEX_ENUM_BUILDER: &str = "impl<'s> LuaBuilder<'s, rlua::Table<'s>> for ComplexEnum {
    fn builder(ctx: rlua::Context<'s>) -> rlua::Result<rlua::Table<'s>> {
        let t = ctx.create_table()?;
        t.set(stringify!(Unit), Ok(ComplexEnum::Unit)?)?;
        t.set(stringify!(Tup), ctx.create_function(|_, args: (f32, Option<i32>,)| {
            Ok(ComplexEnum::Tup(args.0, args.1,))
        })?)?;
        t.set(stringify!(Named), ctx.create_function(|_, data: rlua::Table<'s>| {
            Ok(ComplexEnum::Named {
                foo: data.get::<_, String>(stringify!(foo))?,
                baz: data.get::<_, ::std::option::Option<u8>>(stringify!(baz))?.unwrap_or(10),
            })
        })?)?;
        t.set(stringify!(Composite), ctx.create_function(|_, args: (Tup,)| {
            Ok(ComplexEnum::Composite(args.0,))
        })?)?;
        Ok(t)
    }
}";

#[derive(Debug, Clone)]
struct B;

#[derive(Debug, Clone)]
struct A(B);

impl UserData for A {}

const SUCCESS_TESTS: &str = "
return function(Unit, Tup, Named, ComplexEnum)
    return Unit,
        Tup(1, 'a'),
        Named { a = 1, b = 'a' },
        {
            ComplexEnum.Unit,
            ComplexEnum.Tup(0.1, 42),
            ComplexEnum.Named { foo = 'bar' },
            ComplexEnum.Composite(Tup(0, 'zero')),
        }
end
";

fn meta(meta: syn::Meta) -> Meta {
    match meta {
        syn::Meta::Path(_) => Meta::Path,
        syn::Meta::List(_) => Meta::List,
        syn::Meta::NameValue(pair) => Meta::NameValue(pair.lit.to_token_stream().to_string()),
    }
}

fn field(f: &syn::Field) -> Field {
    Field {
        ty: f.ty.to_token_stream().to_string(),
        attrs: f
            .attrs
            .iter()
            .map(|a| Attribute {
                path: a.path.to_token_stream().to_string(),
                meta: a.parse_meta().ok().map(meta),
            })
            .collect(),
    }
}

fn fields(fields: &syn::Fields) -> Fields {
    match fields {
        syn::Fields::Unit => Fields::Unit,
        syn::Fields::Unnamed(unnamed) => Fields::Unnamed(unnamed.unnamed.iter().map(field).collect()),
        syn::Fields::Named(named) => Fields::Named(
            named
                .named
                .iter()
                .map(|f| (f.ident.as_ref().unwrap().to_string(), field(f)))
                .collect(),
        ),
    }
}

/// Reads a definition from Rust source text, as a derive macro receives it.
fn definition(source: &str) -> DeriveInput {
    let input: syn::DeriveInput = syn::parse_str(source).unwrap();
    let data = match &input.data {
        syn::Data::Struct(ds) => Data::Struct(fields(&ds.fields)),
        syn::Data::Enum(de) => Data::Enum(
            de.variants
                .iter()
                .map(|v| Variant { ident: v.ident.to_string(), fields: fields(&v.fields) })
                .collect(),
        ),
        syn::Data::Union(_) => Data::Union,
    };
    DeriveInput { ident: input.ident.to_string(), data }
}

fn derived(source: &str) -> LuaBuilderImpl {
    let input = definition(source);
    assert_eq!(check_definition(&input), Ok(()));
    derive_struct_builder(&input)
}

/// The text as the tokens it is made of, so that layout does not count.
fn tokens(text: &str) -> String {
    text.parse::<proc_macro2::TokenStream>().unwrap().to_string()
}

#[test]
fn test_all() {
    assert_eq!(tokens(&derived(UNIT).render()), tokens(UNIT_BUILDER));
    assert_eq!(tokens(&derived(TUP).render()), tokens(TUP_BUILDER));
    assert_eq!(tokens(&derived(NAMED).render()), tokens(NAMED_BUILDER));
    assert_eq!(tokens(&derived(COMPLEX_ENUM).render()), tokens(COMPLEX_ENUM_BUILDER));

    let lua = rlua::Lua::new();
    let (u, t, n, ce) = lua
        .context(
            |ctx| -> rlua::Result<(Unit, Tup, Named, Vec<ComplexEnum>)> {
                ctx.load(SUCCESS_TESTS)
                    .call::<_, rlua::Function>(())?
                    .call::<_, _>((
                        Unit::builder(ctx)?,
                        Tup::builder(ctx)?,
                        Named::builder(ctx)?,
                        ComplexEnum::builder(ctx)?,
                    ))
            },
        )
        .unwrap();

    assert_eq!(u, Unit);
    assert_eq!(t, Tup(1, "a".to_owned()));
    assert_eq!(
        n,
        Named {
            a: 1,
            b: "a".to_owned()
        }
    );
    assert_eq!(
        ce,
        vec![
            ComplexEnum::Unit,
            ComplexEnum::Tup(0.1, Some(42)),
            ComplexEnum::Named {
                foo: "bar".to_owned(),
                baz: 10,
            },
            ComplexEnum::Composite(Tup(0, "zero".to_owned())),
        ]
    );
}

#[test]
fn test_user_data() {
    let a = derive_user_data(&definition("struct A(B);"));
    assert_eq!(a.name, "A");
    assert_eq!(tokens(&a.render()), tokens("impl UserData for A {}"));
    let _ = A(B).clone();
}

// A host on `rlua`: it answers the requests of a constructor from the Lua
// values of a call, so that what the library says of a call can be held
// against what the written-out builder does with the same values.

fn show<'lua, T: FromLua<'lua> + std::fmt::Debug>(
    ctx: Context<'lua>,
    value: rlua::Value<'lua>,
) -> Outcome<String> {
    match T::from_lua(value, ctx) {
        Ok(v) => Outcome::Present(format!("{:?}", v)),
        Err(e) => Outcome::Incompatible(e.to_string()),
    }
}

fn answer<'lua>(ctx: Context<'lua>, request: &Request, args: &[rlua::Value<'lua>]) -> Outcome<String> {
    let value = match &request.key {
        Key::Index(i) => args.get(*i).cloned().unwrap_or(rlua::Value::Nil),
        Key::Name(name) => match args.first() {
            Some(rlua::Value::Table(t)) => t.get::<_, rlua::Value>(name.as_str()).unwrap(),
            _ => rlua::Value::Nil,
        },
    };
    if request.optional && matches!(value, rlua::Value::Nil) {
        return Outcome::Absent;
    }
    match request.ty.as_str() {
        "i32" => show::<i32>(ctx, value),
        "u8" => show::<u8>(ctx, value),
        "f32" => show::<f32>(ctx, value),
        "String" => show::<String>(ctx, value),
        "Option < i32 >" => show::<Option<i32>>(ctx, value),
        "Tup" => show::<Tup>(ctx, value),
        other => panic!("no decoder for {}", other),
    }
}

/// What the library says the call makes, written as `Debug` writes a value.
fn modelled<'lua>(
    ctx: Context<'lua>,
    name: &str,
    constructor: &Constructor,
    args: &[rlua::Value<'lua>],
) -> Result<String, String> {
    let outcomes = constructor.requests().iter().map(|r| answer(ctx, r, args)).collect();
    let made: Instance = constructor.construct(outcomes).map_err(|e| format!("{:?}", e))?;
    let path = match &made.target {
        Target::SelfType => name.to_owned(),
        Target::Variant { variant, .. } => variant.clone(),
    };
    Ok(match &made.fields {
        InstanceFields::Unit => path,
        InstanceFields::Tuple(values) => format!("{}({})", path, values.join(", ")),
        InstanceFields::Struct(values) => format!(
            "{} {{ {} }}",
            path,
            values.iter().map(|(n, v)| format!("{}: {}", n, v)).collect::<Vec<_>>().join(", ")
        ),
    })
}

/// What the written-out builder makes of the call, written by `Debug`.
fn built<'lua, T: FromLua<'lua> + std::fmt::Debug>(
    builder: rlua::Value<'lua>,
    args: &[rlua::Value<'lua>],
) -> Result<String, String> {
    let made: rlua::Result<T> = match builder {
        rlua::Value::Function(f) => f.call(MultiValue::from_vec(args.to_vec())),
        _ => panic!("the builder is no function"),
    };
    made.map(|v| format!("{:?}", v)).map_err(|e| e.to_string())
}

fn agree(modelled: Result<String, String>, built: Result<String, String>) {
    match (&modelled, &built) {
        (Ok(m), Ok(b)) => assert_eq!(m, b),
        (Err(_), Err(_)) => {}
        _ => panic!("the library says {:?}, the builder made {:?}", modelled, built),
    }
}

#[test]
fn library_and_written_out_builder_agree_on_a_tuple_struct() {
    let tup = derived(TUP);
    let constructor = match &tup.builder {
        Builder::Function(c) => c,
        other => panic!("no function: {:?}", other),
    };
    Lua::new().context(|ctx| {
        let calls = [
            "return 1, 'a'",
            "return 0, 'zero'",
            "return 1.0, 'a'",
            "return '1', 2",
            "return 1.5, 'a'",
            "return {}, 'a'",
            "return 1, {}",
            "return 1",
            "return",
            "return nil, 'a'",
            "return 4294967296, 'a'",
            "return 1, 'a', 'more'",
        ];
        for call in calls {
            let args = ctx.load(call).eval::<MultiValue>().unwrap().into_vec();
            let builder = Tup::builder(ctx).unwrap().to_lua(ctx).unwrap();
            agree(modelled(ctx, "Tup", constructor, &args), built::<Tup>(builder, &args));
        }
        let args = ctx.load("return 1, 'a'").eval::<MultiValue>().unwrap().into_vec();
        assert_eq!(modelled(ctx, "Tup", constructor, &args), Ok("Tup(1, \"a\")".to_owned()));
        let args = ctx.load("return {}, 'a'").eval::<MultiValue>().unwrap().into_vec();
        assert!(modelled(ctx, "Tup", constructor, &args).is_err());
    });
}

#[test]
fn library_and_written_out_builder_agree_on_a_struct() {
    let named = derived(NAMED);
    let constructor = match &named.builder {
        Builder::Function(c) => c,
        other => panic!("no function: {:?}", other),
    };
    Lua::new().context(|ctx| {
        let calls = [
            "return { a = 1, b = 'a' }",
            "return { b = 'a', a = 1 }",
            "return { a = 1, b = 'a', c = true }",
            "return { a = 1 }",
            "return { b = 'a' }",
            "return { a = 'x', b = 'a' }",
            "return { a = 1, b = {} }",
            "return {}",
        ];
        for call in calls {
            let args = ctx.load(call).eval::<MultiValue>().unwrap().into_vec();
            let builder = Named::builder(ctx).unwrap().to_lua(ctx).unwrap();
            agree(modelled(ctx, "Named", constructor, &args), built::<Named>(builder, &args));
        }
        let args = ctx.load("return { a = 1, b = 'a' }").eval::<MultiValue>().unwrap().into_vec();
        assert_eq!(
            modelled(ctx, "Named", constructor, &args),
            Ok("Named { a: 1, b: \"a\" }".to_owned())
        );
    });
}

#[test]
fn library_and_written_out_builder_agree_on_an_enum() {
    let complex = derived(COMPLEX_ENUM);
    Lua::new().context(|ctx| {
        ctx.globals().set("Tup", Tup::builder(ctx).unwrap()).unwrap();
        let calls = [
            ("Tup", "return 0.1, 42"),
            ("Tup", "return 0.1"),
            ("Tup", "return 0.1, nil"),
            ("Tup", "return 'x', 42"),
            ("Tup", "return 0.1, 'x'"),
            ("Named", "return { foo = 'bar' }"),
            ("Named", "return { foo = 'bar', baz = 3 }"),
            ("Named", "return { foo = 'bar', baz = 10 }"),
            ("Named", "return { foo = 'bar', baz = 'x' }"),
            ("Named", "return { foo = 'bar', baz = 256 }"),
            ("Named", "return { baz = 3 }"),
            ("Named", "return { foo = {}, baz = 3 }"),
            ("Named", "return {}"),
            ("Composite", "return Tup(0, 'zero')"),
            ("Composite", "return 0"),
            ("Composite", "return"),
        ];
        for (variant, call) in calls {
            let constructor = complex.builder.select(variant).unwrap();
            let args = ctx.load(call).eval::<MultiValue>().unwrap().into_vec();
            let table: Table = ComplexEnum::builder(ctx).unwrap();
            let builder = table.get::<_, rlua::Value>(variant).unwrap();
            agree(
                modelled(ctx, "ComplexEnum", constructor, &args),
                built::<ComplexEnum>(builder, &args),
            );
        }
        let named = complex.builder.select("Named").unwrap();
        let args = ctx.load("return { foo = 'bar' }").eval::<MultiValue>().unwrap().into_vec();
        assert_eq!(
            modelled(ctx, "ComplexEnum", named, &args),
            Ok("Named { foo: \"bar\", baz: 10 }".to_owned())
        );
        let args =
            ctx.load("return { foo = 'bar', baz = 'x' }").eval::<MultiValue>().unwrap().into_vec();
        assert!(modelled(ctx, "ComplexEnum", named, &args).is_err());

        let unit = complex.builder.select("Unit").unwrap();
        let table: Table = ComplexEnum::builder(ctx).unwrap();
        let value = table.get::<_, ComplexEnum>("Unit").unwrap();
        assert_eq!(modelled(ctx, "ComplexEnum", unit, &[]), Ok(format!("{:?}", value)));
        assert!(unit.requests().is_empty());
        assert!(matches!(table.get::<_, rlua::Value>("Missing").unwrap(), rlua::Value::Nil));
        assert_eq!(complex.builder.select("Missing"), None);
    });
}

#[test]
fn unit_struct_is_its_own_builder() {
    let unit = derived(UNIT);
    let constructor = match &unit.builder {
        Builder::Value(c) => c,
        other => panic!("no value: {:?}", other),
    };
    Lua::new().context(|ctx| {
        let value: Unit = Unit::builder(ctx).unwrap();
        assert_eq!(modelled(ctx, "Unit", constructor, &[]), Ok(format!("{:?}", value)));
    });
    let _: Option<Function> = None;
}

#[test]
fn definition_read_by_syn_equals_the_one_written_by_hand() {
    let read = definition("struct Item { label: String, #[doc = \"how many\"] #[default = 10] qty: u8 }");
    let written = DeriveInput {
        ident: "Item".to_owned(),
        data: Data::Struct(Fields::Named(vec![
            ("label".to_owned(), Field { ty: "String".to_owned(), attrs: vec![] }),
            (
                "qty".to_owned(),
                Field {
                    ty: "u8".to_owned(),
                    attrs: vec![
                        Attribute {
                            path: "doc".to_owned(),
                            meta: Some(Meta::NameValue("\"how many\"".to_owned())),
                        },
                        Attribute {
                            path: "default".to_owned(),
                            meta: Some(Meta::NameValue("10".to_owned())),
                        },
                    ],
                },
            ),
        ])),
    };
    assert_eq!(read, written);
}

#[test]
fn rendered_impl_is_rust_that_reads_back_as_tokens() {
    let complex = derived(
        "enum Valuables { Coins(u32), Book { name: String, #[default = true] read: bool }, Knowledge }",
    );
    let expected = "
        impl<'s> LuaBuilder<'s, rlua::Table<'s>> for Valuables {
            fn builder(ctx: rlua::Context<'s>) -> rlua::Result<rlua::Table<'s>> {
                let t = ctx.create_table()?;
                t.set(stringify!(Coins), ctx.create_function(|_, args: (u32,)| {
                    Ok(Valuables::Coins(args.0,))
                })?)?;
                t.set(stringify!(Book), ctx.create_function(|_, data: rlua::Table<'s>| {
                    Ok(Valuables::Book {
                        name: data.get::<_, String>(stringify!(name))?,
                        read: data.get::<_, ::std::option::Option<bool>>(stringify!(read))?.unwrap_or(true),
                    })
                })?)?;
                t.set(stringify!(Knowledge), Ok(Valuables::Knowledge)?)?;
                Ok(t)
            }
        }";
    assert_eq!(tokens(&complex.render()), tokens(expected));
}

fn only_field(source: &str) -> FieldSpec {
    match derived(source).builder {
        Builder::Function(Constructor { shape: ShapeKind::NamedFields(mut fields), .. }) => {
            assert_eq!(fields.len(), 1);
            fields.remove(0).1
        }
        other => panic!("no struct with named fields: {:?}", other),
    }
}

#[test]
fn default_literal_is_kept_as_syn_prints_it() {
    let cases = [
        ("struct S { #[default = 10] x: u8 }", "10"),
        ("struct S { #[default=10] x: u8 }", "10"),
        ("struct S { #[default = 10u8] x: u8 }", "10u8"),
        ("struct S { #[default = true] x: bool }", "true"),
        ("struct S { #[default = -1] x: i32 }", "- 1"),
        ("struct S { #[default = 0.5] x: f32 }", "0.5"),
        ("struct S { #[default = \"none\"] x: &'static str }", "\"none\""),
        ("struct S { #[default = 'c'] x: char }", "'c'"),
    ];
    for (source, literal) in cases {
        assert_eq!(only_field(source).default, Some(literal.to_owned()), "{}", source);
    }
}

#[test]
fn attributes_of_other_names_are_not_read() {
    let spec = only_field("struct S { /// a number\n #[precondition x < 5] #[serde(skip)] x: i32 }");
    assert_eq!(spec, FieldSpec { ty: "i32".to_owned(), default: None });
    let read = definition("struct S { #[precondition x < 5] x: i32 }");
    let written = DeriveInput {
        ident: "S".to_owned(),
        data: Data::Struct(Fields::Named(vec![(
            "x".to_owned(),
            Field {
                ty: "i32".to_owned(),
                attrs: vec![Attribute { path: "precondition".to_owned(), meta: None }],
            },
        )])),
    };
    assert_eq!(read, written);
}

#[test]
fn malformed_default_in_source_is_refused() {
    let sources = [
        "struct S { #[default] x: u8 }",
        "struct S { #[default(10)] x: u8 }",
        "struct S { #[default = 1 + 1] x: u8 }",
        "struct S { #[default = x] x: u8 }",
        "struct S { #[default 10] x: u8 }",
        "struct S(i32, #[default(1)] u8);",
        "enum E { A, B { #[default] x: u8 } }",
        "struct S { #[default(1)] #[default = 2] x: u8 }",
    ];
    for source in sources {
        assert_eq!(
            check_definition(&definition(source)),
            Err(GenerationError::InvalidDefault),
            "{}",
            source
        );
    }
    assert_eq!(check_definition(&definition("struct S { #[default = 1] #[default(2)] x: u8 }")), Ok(()));
}

#[test]
fn union_in_source_is_refused() {
    let input = definition("union U { a: u32, b: f32 }");
    assert_eq!(check_definition(&input), Err(GenerationError::UnsupportedData));
    assert_eq!(derive_user_data(&input).render(), "impl UserData for U {}");
}
