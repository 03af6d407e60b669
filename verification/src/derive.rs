//! Deriving the builder of a type from its definition.
//!
//! Not every definition has a builder: a union has none, and neither has a
//! type with a field whose first `default` attribute is not of the form
//! `#[default = literal]`. The functions that derive ask for a definition
//! that has one; [`check_definition`] and the checks beside it tell, for any
//! definition, whether it has one and why not.
use crate::shape::{
    entries_view, field_specs_view, named_specs_view, Builder, BuilderView, Constructor,
    ConstructorView, FieldSpec, FieldSpecView, LuaBuilderImpl, LuaBuilderImplView, ShapeKind,
    ShapeKindView, Target, TargetView, UserDataImpl,
};
use crate::syntax::{
    attributes_view, fields_view, named_fields_view, optional_meta_view, variants_view, Attribute,
    AttributeView, Data, DataView, DeriveInput, DeriveInputView, Field, FieldView, Fields,
    FieldsView, Meta, MetaView, Variant, VariantView,
};
use vstd::pervasive::unreached;
use vstd::prelude::*;

verus! {

/// The name of the attribute that gives a field its default.
pub const DEFAULT: &'static str = "default";

/// Why no builder can be derived for a definition.
#[derive(Clone, Copy, Debug, PartialEq, Eq)]
pub enum GenerationError {
    /// A `default` attribute is not of the form `#[default = literal]`.
    InvalidDefault,
    /// The definition is neither a struct nor an enum.
    UnsupportedData,
}

impl GenerationError {
    /// The message of the error, as text.
    pub open spec fn message_text(self) -> Seq<char> {
        match self {
            GenerationError::InvalidDefault => "Invalid syntax for default"@,
            GenerationError::UnsupportedData => "Must annotate struct or enum"@,
        }
    }

    /// The message with which a derive reports the error.
    pub fn message(&self) -> (text: &'static str)
        ensures
            text@ == self.message_text(),
    {
        match self {
            GenerationError::InvalidDefault => "Invalid syntax for default",
            GenerationError::UnsupportedData => "Must annotate struct or enum",
        }
    }
}

/// The first attribute called `default`, if there is one.
pub open spec fn default_attribute(attrs: Seq<AttributeView>) -> Option<AttributeView>
    decreases attrs.len(),
{
    if attrs.len() == 0 {
        None
    } else if attrs[0].path == DEFAULT@ {
        Some(attrs[0])
    } else {
        default_attribute(attrs.drop_first())
    }
}

/// The literal that a `default` attribute of this structured form declares.
/// Only `= literal` declares one; any other form, and an attribute that has
/// no structured form, is refused.
pub open spec fn declared_literal(meta: Option<MetaView>) -> Result<Seq<char>, GenerationError> {
    match meta {
        Some(MetaView::NameValue(lit)) => Ok(lit),
        _ => Err(GenerationError::InvalidDefault),
    }
}

/// How a field is decoded: with its declared type, and with the default that
/// its first `default` attribute declares, if it has such an attribute.
pub open spec fn field_spec(field: FieldView) -> Result<FieldSpecView, GenerationError> {
    match default_attribute(field.attrs) {
        None => Ok(FieldSpecView { ty: field.ty, default: None }),
        Some(attr) => match declared_literal(attr.meta) {
            Ok(lit) => Ok(FieldSpecView { ty: field.ty, default: Some(lit) }),
            Err(e) => Err(e),
        },
    }
}

/// How each of the fields is decoded, in order; the error of the first field
/// that has one, if any has.
pub open spec fn field_specs(fields: Seq<FieldView>) -> Result<
    Seq<FieldSpecView>,
    GenerationError,
>
    decreases fields.len(),
{
    if fields.len() == 0 {
        Ok(Seq::empty())
    } else {
        match field_specs(fields.drop_last()) {
            Err(e) => Err(e),
            Ok(specs) => match field_spec(fields.last()) {
                Err(e) => Err(e),
                Ok(spec) => Ok(specs.push(spec)),
            },
        }
    }
}

/// How each of the named fields is decoded, under its name and in order; the
/// error of the first field that has one, if any has.
pub open spec fn named_specs(fields: Seq<(Seq<char>, FieldView)>) -> Result<
    Seq<(Seq<char>, FieldSpecView)>,
    GenerationError,
>
    decreases fields.len(),
{
    if fields.len() == 0 {
        Ok(Seq::empty())
    } else {
        match named_specs(fields.drop_last()) {
            Err(e) => Err(e),
            Ok(specs) => match field_spec(fields.last().1) {
                Err(e) => Err(e),
                Ok(spec) => Ok(specs.push((fields.last().0, spec))),
            },
        }
    }
}

/// The shape of the fields: none, positional or named, with how each field
/// is decoded.
pub open spec fn shape_of(fields: FieldsView) -> Result<ShapeKindView, GenerationError> {
    match fields {
        FieldsView::Unit => Ok(ShapeKindView::NoFields),
        FieldsView::Unnamed(unnamed) => match field_specs(unnamed) {
            Ok(specs) => Ok(ShapeKindView::PositionalFields(specs)),
            Err(e) => Err(e),
        },
        FieldsView::Named(named) => match named_specs(named) {
            Ok(specs) => Ok(ShapeKindView::NamedFields(specs)),
            Err(e) => Err(e),
        },
    }
}

/// The constructor that makes `target` from fields of this form.
pub open spec fn constructor_for(target: TargetView, fields: FieldsView) -> Result<
    ConstructorView,
    GenerationError,
> {
    match shape_of(fields) {
        Ok(shape) => Ok(ConstructorView { target, shape }),
        Err(e) => Err(e),
    }
}

/// The builder of a struct called `name`: the value itself where the struct
/// has no fields, else a function.
pub open spec fn struct_impl(name: Seq<char>, fields: FieldsView) -> Result<
    LuaBuilderImplView,
    GenerationError,
> {
    match constructor_for(TargetView::SelfType, fields) {
        Ok(c) => Ok(
            LuaBuilderImplView {
                name,
                builder: if fields is Unit {
                    BuilderView::Value(c)
                } else {
                    BuilderView::Function(c)
                },
            },
        ),
        Err(e) => Err(e),
    }
}

/// The constructors of the variants of the enum called `name`, each under
/// its variant's name and in order; the error of the first variant that has
/// one, if any has.
pub open spec fn variant_entries(name: Seq<char>, variants: Seq<VariantView>) -> Result<
    Seq<(Seq<char>, ConstructorView)>,
    GenerationError,
>
    decreases variants.len(),
{
    if variants.len() == 0 {
        Ok(Seq::empty())
    } else {
        let last = variants.last();
        match variant_entries(name, variants.drop_last()) {
            Err(e) => Err(e),
            Ok(entries) => match constructor_for(
                TargetView::Variant { ty: name, variant: last.ident },
                last.fields,
            ) {
                Err(e) => Err(e),
                Ok(c) => Ok(entries.push((last.ident, c))),
            },
        }
    }
}

/// The builder of an enum called `name`: a table of its variants'
/// constructors.
pub open spec fn enum_impl(name: Seq<char>, variants: Seq<VariantView>) -> Result<
    LuaBuilderImplView,
    GenerationError,
> {
    match variant_entries(name, variants) {
        Ok(entries) => Ok(LuaBuilderImplView { name, builder: BuilderView::Table(entries) }),
        Err(e) => Err(e),
    }
}

/// The builder derived for a definition: that of a struct or of an enum; a
/// union has none.
pub open spec fn derived_builder(input: DeriveInputView) -> Result<
    LuaBuilderImplView,
    GenerationError,
> {
    match input.data {
        DataView::Struct(fields) => struct_impl(input.ident, fields),
        DataView::Enum(variants) => enum_impl(input.ident, variants),
        DataView::Union => Err(GenerationError::UnsupportedData),
    }
}

/// Finds the first attribute called `default`.
pub fn find_default(attrs: &Vec<Attribute>) -> (found: Option<&Attribute>)
    ensures
        match found {
            Some(attr) => default_attribute(attributes_view(attrs@)) == Some(attr@),
            None => default_attribute(attributes_view(attrs@)) is None,
        },
{
    let name = String::from_str(DEFAULT);
    let ghost all = attributes_view(attrs@);
    let mut i: usize = 0;
    assert(all.subrange(0, all.len() as int) =~= all);
    while i < attrs.len()
        invariant
            i <= attrs.len(),
            all == attributes_view(attrs@),
            name@ == DEFAULT@,
            default_attribute(all) == default_attribute(all.subrange(i as int, all.len() as int)),
        decreases attrs.len() - i,
    {
        let ghost rest = all.subrange(i as int, all.len() as int);
        assert(rest[0] == attrs@[i as int]@);
        if attrs[i].path == name {
            return Some(&attrs[i]);
        }
        assert(rest.drop_first() =~= all.subrange(i + 1, all.len() as int));
        i += 1;
    }
    None
}

/// Tells whether the structured form of a `default` attribute declares a
/// literal: only `= literal` does.
pub fn check_default(meta: &Option<Meta>) -> (checked: Result<(), GenerationError>)
    ensures
        match checked {
            Ok(_) => declared_literal(optional_meta_view(*meta)) is Ok,
            Err(e) => declared_literal(optional_meta_view(*meta)) == Err::<
                Seq<char>,
                GenerationError,
            >(e),
        },
{
    match meta {
        Some(Meta::NameValue(_)) => Ok(()),
        _ => Err(GenerationError::InvalidDefault),
    }
}

/// Tells whether a field can be decoded: it can unless its first `default`
/// attribute is not of the form `#[default = literal]`.
pub fn check_field(field: &Field) -> (checked: Result<(), GenerationError>)
    ensures
        match checked {
            Ok(_) => field_spec(field@) is Ok,
            Err(e) => field_spec(field@) == Err::<FieldSpecView, GenerationError>(e),
        },
{
    match find_default(&field.attrs) {
        None => Ok(()),
        Some(attr) => check_default(&attr.meta),
    }
}

/// Tells whether fields have a shape: they have unless a field cannot be
/// decoded; the error is that of the first such field, in declaration order.
pub fn check_fields(fields: &Fields) -> (checked: Result<(), GenerationError>)
    ensures
        match checked {
            Ok(_) => shape_of(fields@) is Ok,
            Err(e) => shape_of(fields@) == Err::<ShapeKindView, GenerationError>(e),
        },
{
    match fields {
        Fields::Unit => Ok(()),
        Fields::Unnamed(unnamed) => {
            let ghost all = fields_view(unnamed@);
            let mut i: usize = 0;
            assert(all.take(0) =~= Seq::empty());
            while i < unnamed.len()
                invariant
                    i <= unnamed.len(),
                    all == fields_view(unnamed@),
                    fields@ == FieldsView::Unnamed(all),
                    field_specs(all.take(i as int)) is Ok,
                decreases unnamed.len() - i,
            {
                assert(all.take(i + 1).drop_last() =~= all.take(i as int));
                assert(all.take(i + 1).last() == unnamed@[i as int]@);
                match check_field(&unnamed[i]) {
                    Ok(_) => {},
                    Err(e) => {
                        proof {
                            lemma_field_specs_error(all, i as int);
                        }
                        return Err(e);
                    },
                }
                i += 1;
            }
            assert(all.take(i as int) =~= all);
            Ok(())
        },
        Fields::Named(named) => {
            let ghost all = named_fields_view(named@);
            let mut i: usize = 0;
            assert(all.take(0) =~= Seq::empty());
            while i < named.len()
                invariant
                    i <= named.len(),
                    all == named_fields_view(named@),
                    fields@ == FieldsView::Named(all),
                    named_specs(all.take(i as int)) is Ok,
                decreases named.len() - i,
            {
                assert(all.take(i + 1).drop_last() =~= all.take(i as int));
                assert(all.take(i + 1).last() == (named@[i as int].0@, named@[i as int].1@));
                match check_field(&named[i].1) {
                    Ok(_) => {},
                    Err(e) => {
                        proof {
                            lemma_named_specs_error(all, i as int);
                        }
                        return Err(e);
                    },
                }
                i += 1;
            }
            assert(all.take(i as int) =~= all);
            Ok(())
        },
    }
}

/// Tells whether a definition has a builder, and why not where it has none.
///
/// Fails with [`GenerationError::UnsupportedData`] exactly for a union, and
/// with [`GenerationError::InvalidDefault`] exactly where a struct or an
/// enum has a field whose first `default` attribute is not of the form
/// `#[default = literal]`.
pub fn check_definition(input: &DeriveInput) -> (checked: Result<(), GenerationError>)
    ensures
        match checked {
            Ok(_) => derived_builder(input@) is Ok,
            Err(e) => derived_builder(input@) == Err::<LuaBuilderImplView, GenerationError>(e),
        },
{
    match &input.data {
        Data::Struct(ds) => check_fields(ds),
        Data::Enum(de) => {
            let ghost name = input.ident@;
            let ghost all = variants_view(de@);
            let mut i: usize = 0;
            assert(all.take(0) =~= Seq::empty());
            while i < de.len()
                invariant
                    i <= de.len(),
                    all == variants_view(de@),
                    input@ == (DeriveInputView { ident: name, data: DataView::Enum(all) }),
                    variant_entries(name, all.take(i as int)) is Ok,
                decreases de.len() - i,
            {
                assert(all.take(i + 1).drop_last() =~= all.take(i as int));
                assert(all.take(i + 1).last() == de@[i as int]@);
                match check_fields(&de[i].fields) {
                    Ok(_) => {},
                    Err(e) => {
                        proof {
                            lemma_variant_entries_error(name, all, i as int);
                        }
                        return Err(e);
                    },
                }
                i += 1;
            }
            assert(all.take(i as int) =~= all);
            Ok(())
        },
        Data::Union => Err(GenerationError::UnsupportedData),
    }
}

/// Reads the literal out of the structured form of a `default` attribute
/// that declares one.
pub fn default_literal(meta: &Option<Meta>) -> (literal: String)
    requires
        declared_literal(optional_meta_view(*meta)) is Ok,
    ensures
        declared_literal(optional_meta_view(*meta)) == Ok::<Seq<char>, GenerationError>(literal@),
{
    match meta {
        Some(Meta::NameValue(lit)) => lit.clone(),
        _ => unreached(),
    }
}

/// Decides how one field is decoded: with its declared type and, where the
/// field has a `default` attribute, with the literal that the first such
/// attribute declares.
pub fn classify_field(field: &Field) -> (spec: FieldSpec)
    requires
        field_spec(field@) is Ok,
    ensures
        field_spec(field@) == Ok::<FieldSpecView, GenerationError>(spec@),
{
    match find_default(&field.attrs) {
        None => FieldSpec { ty: field.ty.clone(), default: None },
        Some(attr) => FieldSpec { ty: field.ty.clone(), default: Some(default_literal(&attr.meta)) },
    }
}

/// Decides how each of the fields is decoded, in declaration order.
///
/// Asks that no field's first `default` attribute is malformed.
pub fn create_type_and_unwrap(fields: &Vec<Field>) -> (specs: Vec<FieldSpec>)
    requires
        field_specs(fields_view(fields@)) is Ok,
    ensures
        field_specs(fields_view(fields@)) == Ok::<Seq<FieldSpecView>, GenerationError>(
            field_specs_view(specs@),
        ),
{
    let ghost all = fields_view(fields@);
    let mut specs: Vec<FieldSpec> = Vec::new();
    let mut i: usize = 0;
    assert(all.take(0) =~= Seq::empty());
    assert(field_specs_view(specs@) =~= Seq::empty());
    while i < fields.len()
        invariant
            i <= fields.len(),
            all == fields_view(fields@),
            field_specs(all) is Ok,
            field_specs(all.take(i as int)) == Ok::<Seq<FieldSpecView>, GenerationError>(
                field_specs_view(specs@),
            ),
        decreases fields.len() - i,
    {
        assert(all.take(i + 1).drop_last() =~= all.take(i as int));
        assert(all.take(i + 1).last() == fields@[i as int]@);
        proof {
            if field_specs(all.take(i + 1)) is Err {
                lemma_field_specs_error(all, i as int);
            }
        }
        let spec = classify_field(&fields[i]);
        assert(field_specs_view(specs@.push(spec)) =~= field_specs_view(specs@).push(spec@));
        specs.push(spec);
        i += 1;
    }
    assert(all.take(i as int) =~= all);
    specs
}

/// Once the fields up to some position have an error, every longer list of
/// fields has that error.
proof fn lemma_field_specs_error(fields: Seq<FieldView>, i: int)
    requires
        0 <= i < fields.len(),
        field_specs(fields.take(i + 1)) is Err,
    ensures
        field_specs(fields) == field_specs(fields.take(i + 1)),
    decreases fields.len(),
{
    if i + 1 < fields.len() {
        assert(fields.drop_last().take(i + 1) =~= fields.take(i + 1));
        lemma_field_specs_error(fields.drop_last(), i);
    } else {
        assert(fields.take(i + 1) =~= fields);
    }
}

/// Once the named fields up to some position have an error, every longer
/// list of fields has that error.
proof fn lemma_named_specs_error(fields: Seq<(Seq<char>, FieldView)>, i: int)
    requires
        0 <= i < fields.len(),
        named_specs(fields.take(i + 1)) is Err,
    ensures
        named_specs(fields) == named_specs(fields.take(i + 1)),
    decreases fields.len(),
{
    if i + 1 < fields.len() {
        assert(fields.drop_last().take(i + 1) =~= fields.take(i + 1));
        lemma_named_specs_error(fields.drop_last(), i);
    } else {
        assert(fields.take(i + 1) =~= fields);
    }
}

/// Once the variants up to some position have an error, every longer list of
/// variants has that error.
proof fn lemma_variant_entries_error(name: Seq<char>, variants: Seq<VariantView>, i: int)
    requires
        0 <= i < variants.len(),
        variant_entries(name, variants.take(i + 1)) is Err,
    ensures
        variant_entries(name, variants) == variant_entries(name, variants.take(i + 1)),
    decreases variants.len(),
{
    if i + 1 < variants.len() {
        assert(variants.drop_last().take(i + 1) =~= variants.take(i + 1));
        lemma_variant_entries_error(name, variants.drop_last(), i);
    } else {
        assert(variants.take(i + 1) =~= variants);
    }
}

/// The constructor of a tuple struct or tuple variant: it makes `name` from
/// positional fields, decoded in declaration order.
///
/// Asks that no field's first `default` attribute is malformed.
pub fn builder_for_unnamed(name: Target, fields: &Vec<Field>) -> (builder: Constructor)
    requires
        field_specs(fields_view(fields@)) is Ok,
    ensures
        constructor_for(name@, FieldsView::Unnamed(fields_view(fields@))) == Ok::<
            ConstructorView,
            GenerationError,
        >(builder@),
{
    let specs = create_type_and_unwrap(fields);
    Constructor { target: name, shape: ShapeKind::PositionalFields(specs) }
}

/// The constructor of a struct or variant with named fields: it makes `name`
/// from fields looked up by name, in declaration order.
///
/// Asks that no field's first `default` attribute is malformed.
pub fn builder_for_named(name: Target, fields: &Vec<(String, Field)>) -> (builder: Constructor)
    requires
        named_specs(named_fields_view(fields@)) is Ok,
    ensures
        constructor_for(name@, FieldsView::Named(named_fields_view(fields@))) == Ok::<
            ConstructorView,
            GenerationError,
        >(builder@),
{
    let ghost all = named_fields_view(fields@);
    let mut specs: Vec<(String, FieldSpec)> = Vec::new();
    let mut i: usize = 0;
    assert(all.take(0) =~= Seq::empty());
    assert(named_specs_view(specs@) =~= Seq::empty());
    while i < fields.len()
        invariant
            i <= fields.len(),
            all == named_fields_view(fields@),
            named_specs(all) is Ok,
            named_specs(all.take(i as int)) == Ok::<
                Seq<(Seq<char>, FieldSpecView)>,
                GenerationError,
            >(named_specs_view(specs@)),
        decreases fields.len() - i,
    {
        assert(all.take(i + 1).drop_last() =~= all.take(i as int));
        assert(all.take(i + 1).last() == (fields@[i as int].0@, fields@[i as int].1@));
        proof {
            if named_specs(all.take(i + 1)) is Err {
                lemma_named_specs_error(all, i as int);
            }
        }
        let entry = (fields[i].0.clone(), classify_field(&fields[i].1));
        assert(named_specs_view(specs@.push(entry)) =~= named_specs_view(specs@).push(
            (entry.0@, entry.1@),
        ));
        specs.push(entry);
        i += 1;
    }
    assert(all.take(i as int) =~= all);
    Constructor { target: name, shape: ShapeKind::NamedFields(specs) }
}

/// The constructor that makes `name` from fields of any of the three forms.
///
/// Asks that no field's first `default` attribute is malformed; fields of
/// the unit form always have a constructor.
pub fn builder_for_fields(name: Target, fields: &Fields) -> (builder: Constructor)
    requires
        shape_of(fields@) is Ok,
    ensures
        constructor_for(name@, fields@) == Ok::<ConstructorView, GenerationError>(builder@),
{
    match fields {
        Fields::Unit => Constructor { target: name, shape: ShapeKind::NoFields },
        Fields::Unnamed(unnamed) => builder_for_unnamed(name, unnamed),
        Fields::Named(named) => builder_for_named(name, named),
    }
}

/// The implementation whose builder is a Lua function that calls `builder`.
pub fn function_struct_builder(name: String, builder: Constructor) -> (code: LuaBuilderImpl)
    ensures
        code@ == (LuaBuilderImplView { name: name@, builder: BuilderView::Function(builder@) }),
{
    LuaBuilderImpl { name, builder: Builder::Function(builder) }
}

/// The implementation whose builder is the value that `builder` makes.
pub fn self_struct_builder(name: String, builder: Constructor) -> (code: LuaBuilderImpl)
    ensures
        code@ == (LuaBuilderImplView { name: name@, builder: BuilderView::Value(builder@) }),
{
    LuaBuilderImpl { name, builder: Builder::Value(builder) }
}

/// The builder of the struct called `name`: the value itself for a struct
/// without fields, a function for any other.
///
/// Asks that no field's first `default` attribute is malformed.
pub fn struct_builder(name: String, ds: &Fields) -> (code: LuaBuilderImpl)
    requires
        shape_of(ds@) is Ok,
    ensures
        struct_impl(name@, ds@) == Ok::<LuaBuilderImplView, GenerationError>(code@),
{
    let code = builder_for_fields(Target::SelfType, ds);
    match ds {
        Fields::Unit => self_struct_builder(name, code),
        Fields::Unnamed(_) | Fields::Named(_) => function_struct_builder(name, code),
    }
}

/// The builder of the enum called `name`: a table that holds, under each
/// variant's name and in declaration order, the constructor of that variant,
/// made as the constructor of a struct with the same fields would be.
///
/// Asks that no field of any variant has a first `default` attribute that
/// is malformed.
pub fn enum_builder(name: String, de: &Vec<Variant>) -> (code: LuaBuilderImpl)
    requires
        variant_entries(name@, variants_view(de@)) is Ok,
    ensures
        enum_impl(name@, variants_view(de@)) == Ok::<LuaBuilderImplView, GenerationError>(code@),
{
    let ghost all = variants_view(de@);
    let mut entries: Vec<(String, Constructor)> = Vec::new();
    let mut i: usize = 0;
    assert(all.take(0) =~= Seq::empty());
    assert(entries_view(entries@) =~= Seq::empty());
    while i < de.len()
        invariant
            i <= de.len(),
            all == variants_view(de@),
            variant_entries(name@, all) is Ok,
            variant_entries(name@, all.take(i as int)) == Ok::<
                Seq<(Seq<char>, ConstructorView)>,
                GenerationError,
            >(entries_view(entries@)),
        decreases de.len() - i,
    {
        assert(all.take(i + 1).drop_last() =~= all.take(i as int));
        assert(all.take(i + 1).last() == de@[i as int]@);
        proof {
            if variant_entries(name@, all.take(i + 1)) is Err {
                lemma_variant_entries_error(name@, all, i as int);
            }
        }
        let v = &de[i];
        let target = Target::Variant { ty: name.clone(), variant: v.ident.clone() };
        let entry = (v.ident.clone(), builder_for_fields(target, &v.fields));
        assert(entries_view(entries@.push(entry)) =~= entries_view(entries@).push(
            (entry.0@, entry.1@),
        ));
        entries.push(entry);
        i += 1;
    }
    assert(all.take(i as int) =~= all);
    LuaBuilderImpl { name, builder: Builder::Table(entries) }
}

/// Derives the builder of a struct or an enum from its definition.
///
/// A unit struct's builder is the value itself; that of a tuple struct or a
/// struct with named fields is a function; that of an enum is a table of
/// its variants' builders.
///
/// Asks for a definition that has a builder: not a union, and without a
/// field whose first `default` attribute is not of the form
/// `#[default = literal]`. [`check_definition`] tells whether that holds.
pub fn derive_struct_builder(input: &DeriveInput) -> (code: LuaBuilderImpl)
    requires
        derived_builder(input@) is Ok,
    ensures
        derived_builder(input@) == Ok::<LuaBuilderImplView, GenerationError>(code@),
{
    let name = input.ident.clone();
    match &input.data {
        Data::Struct(ds) => struct_builder(name, ds),
        Data::Enum(de) => enum_builder(name, de),
        Data::Union => unreached(),
    }
}

/// Derives the empty implementation of `UserData` for a type: it names the
/// type of the definition, whatever the definition holds.
pub fn derive_user_data(input: &DeriveInput) -> (expanded: UserDataImpl)
    ensures
        expanded@ == input@.ident,
{
    UserDataImpl { name: input.ident.clone() }
}

} // verus!
