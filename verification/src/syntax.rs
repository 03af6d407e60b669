//! Type definitions as plain data: what a derive reads of a struct or enum.
use vstd::prelude::*;

verus! {

/// The structured form of an attribute, read after its path: nothing more,
/// a list in parentheses, or `= literal`. A literal is held as its source
/// text.
#[derive(Clone, Debug, PartialEq, Eq)]
pub enum Meta {
    /// Only a path, as in `#[default]`.
    Path,
    /// A path and a list in parentheses, as in `#[default(10)]`.
    List,
    /// A path, `=` and a literal, as in `#[default = 10]`.
    NameValue(String),
}

/// The mathematical value of a [`Meta`].
pub ghost enum MetaView {
    Path,
    List,
    NameValue(Seq<char>),
}

impl View for Meta {
    type V = MetaView;

    open spec fn view(&self) -> MetaView {
        match self {
            Meta::Path => MetaView::Path,
            Meta::List => MetaView::List,
            Meta::NameValue(lit) => MetaView::NameValue(lit@),
        }
    }
}

/// The value of a structured form that may be missing.
pub open spec fn optional_meta_view(meta: Option<Meta>) -> Option<MetaView> {
    match meta {
        Some(m) => Some(m@),
        None => None,
    }
}

/// An attribute such as `#[default = 10]`: the path it is resolved against,
/// as source text, and its structured form, where it has one. An attribute
/// of a grammar of its own, such as `#[precondition x < 5]`, has none.
#[derive(Clone, Debug, PartialEq, Eq)]
pub struct Attribute {
    pub path: String,
    pub meta: Option<Meta>,
}

/// The mathematical value of an [`Attribute`].
pub ghost struct AttributeView {
    pub path: Seq<char>,
    pub meta: Option<MetaView>,
}

impl View for Attribute {
    type V = AttributeView;

    open spec fn view(&self) -> AttributeView {
        AttributeView { path: self.path@, meta: optional_meta_view(self.meta) }
    }
}

/// One field of a struct or of an enum variant: its declared type as source
/// text, and its attributes in the order they were written.
#[derive(Clone, Debug, PartialEq, Eq)]
pub struct Field {
    pub ty: String,
    pub attrs: Vec<Attribute>,
}

/// The mathematical value of a [`Field`].
pub ghost struct FieldView {
    pub ty: Seq<char>,
    pub attrs: Seq<AttributeView>,
}

impl View for Field {
    type V = FieldView;

    open spec fn view(&self) -> FieldView {
        FieldView { ty: self.ty@, attrs: attributes_view(self.attrs@) }
    }
}

/// The values of a field's attributes, in order.
pub open spec fn attributes_view(attrs: Seq<Attribute>) -> Seq<AttributeView> {
    attrs.map_values(|a: Attribute| a@)
}

/// The fields of a struct or of an enum variant.
#[derive(Clone, Debug, PartialEq, Eq)]
pub enum Fields {
    /// No fields, as in `struct Unit;`.
    Unit,
    /// Fields told apart by position, as in `struct Pair(i32, String);`.
    Unnamed(Vec<Field>),
    /// Fields told apart by name, each with its name, in declaration order.
    Named(Vec<(String, Field)>),
}

/// The mathematical value of [`Fields`].
pub ghost enum FieldsView {
    Unit,
    Unnamed(Seq<FieldView>),
    Named(Seq<(Seq<char>, FieldView)>),
}

impl View for Fields {
    type V = FieldsView;

    open spec fn view(&self) -> FieldsView {
        match self {
            Fields::Unit => FieldsView::Unit,
            Fields::Unnamed(fields) => FieldsView::Unnamed(fields_view(fields@)),
            Fields::Named(fields) => FieldsView::Named(named_fields_view(fields@)),
        }
    }
}

/// The values of positional fields, in order.
pub open spec fn fields_view(fields: Seq<Field>) -> Seq<FieldView> {
    fields.map_values(|f: Field| f@)
}

/// The values of named fields, each with its name, in order.
pub open spec fn named_fields_view(fields: Seq<(String, Field)>) -> Seq<(Seq<char>, FieldView)> {
    fields.map_values(|f: (String, Field)| (f.0@, f.1@))
}

/// One variant of an enum.
#[derive(Clone, Debug, PartialEq, Eq)]
pub struct Variant {
    pub ident: String,
    pub fields: Fields,
}

/// The mathematical value of a [`Variant`].
pub ghost struct VariantView {
    pub ident: Seq<char>,
    pub fields: FieldsView,
}

impl View for Variant {
    type V = VariantView;

    open spec fn view(&self) -> VariantView {
        VariantView { ident: self.ident@, fields: self.fields@ }
    }
}

/// What kind of type a definition declares, with its contents.
#[derive(Clone, Debug, PartialEq, Eq)]
pub enum Data {
    Struct(Fields),
    Enum(Vec<Variant>),
    /// A `union`; no builder can be derived for one.
    Union,
}

/// The mathematical value of [`Data`].
pub ghost enum DataView {
    Struct(FieldsView),
    Enum(Seq<VariantView>),
    Union,
}

impl View for Data {
    type V = DataView;

    open spec fn view(&self) -> DataView {
        match self {
            Data::Struct(fields) => DataView::Struct(fields@),
            Data::Enum(variants) => DataView::Enum(variants_view(variants@)),
            Data::Union => DataView::Union,
        }
    }
}

/// No two variants have the same name.
pub open spec fn distinct_idents(variants: Seq<VariantView>) -> bool {
    forall|a: int, b: int|
        0 <= a < b < variants.len() ==> (#[trigger] variants[a]).ident != (
        #[trigger] variants[b]).ident
}

impl DataView {
    /// The definition is one that Rust accepts as far as a builder depends
    /// on it: the variants of an enum have names of their own.
    pub open spec fn well_formed(self) -> bool {
        match self {
            DataView::Enum(variants) => distinct_idents(variants),
            _ => true,
        }
    }
}

/// The values of an enum's variants, in order.
pub open spec fn variants_view(variants: Seq<Variant>) -> Seq<VariantView> {
    variants.map_values(|v: Variant| v@)
}

/// A type definition handed to a derive: the type's name and its contents.
#[derive(Clone, Debug, PartialEq, Eq)]
pub struct DeriveInput {
    pub ident: String,
    pub data: Data,
}

/// The mathematical value of a [`DeriveInput`].
pub ghost struct DeriveInputView {
    pub ident: Seq<char>,
    pub data: DataView,
}

impl View for DeriveInput {
    type V = DeriveInputView;

    open spec fn view(&self) -> DeriveInputView {
        DeriveInputView { ident: self.ident@, data: self.data@ }
    }
}

} // verus!
