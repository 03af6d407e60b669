//! What a derive makes of a type definition: the shape of its fields, the
//! constructor for each shape, and the builder that hands constructors out.
use vstd::prelude::*;

verus! {

/// How a field is decoded: the type it is declared with and, where the field
/// was marked `#[default = VALUE]`, the literal that stands in when Lua
/// leaves the field out. The literal is held as its source text.
#[derive(Clone, Debug, PartialEq, Eq)]
pub struct FieldSpec {
    pub ty: String,
    pub default: Option<String>,
}

/// The mathematical value of a [`FieldSpec`].
pub ghost struct FieldSpecView {
    pub ty: Seq<char>,
    pub default: Option<Seq<char>>,
}

impl View for FieldSpec {
    type V = FieldSpecView;

    open spec fn view(&self) -> FieldSpecView {
        FieldSpecView {
            ty: self.ty@,
            default: match self.default {
                Some(lit) => Some(lit@),
                None => None,
            },
        }
    }
}

/// The values of field specifications, in order.
pub open spec fn field_specs_view(specs: Seq<FieldSpec>) -> Seq<FieldSpecView> {
    specs.map_values(|s: FieldSpec| s@)
}

/// The values of named field specifications, in order.
pub open spec fn named_specs_view(specs: Seq<(String, FieldSpec)>) -> Seq<
    (Seq<char>, FieldSpecView),
> {
    specs.map_values(|s: (String, FieldSpec)| (s.0@, s.1@))
}

/// The shape of a struct's or a variant's fields. A type has exactly one.
#[derive(Clone, Debug, PartialEq, Eq)]
pub enum ShapeKind {
    NoFields,
    /// Fields in declaration order.
    PositionalFields(Vec<FieldSpec>),
    /// Fields with their names, in declaration order.
    NamedFields(Vec<(String, FieldSpec)>),
}

/// The mathematical value of a [`ShapeKind`].
pub ghost enum ShapeKindView {
    NoFields,
    PositionalFields(Seq<FieldSpecView>),
    NamedFields(Seq<(Seq<char>, FieldSpecView)>),
}

impl View for ShapeKind {
    type V = ShapeKindView;

    open spec fn view(&self) -> ShapeKindView {
        match self {
            ShapeKind::NoFields => ShapeKindView::NoFields,
            ShapeKind::PositionalFields(fields) => ShapeKindView::PositionalFields(
                field_specs_view(fields@),
            ),
            ShapeKind::NamedFields(fields) => ShapeKindView::NamedFields(named_specs_view(fields@)),
        }
    }
}

impl ShapeKindView {
    /// How many fields the shape has.
    pub open spec fn arity(self) -> nat {
        match self {
            ShapeKindView::NoFields => 0,
            ShapeKindView::PositionalFields(fields) => fields.len(),
            ShapeKindView::NamedFields(fields) => fields.len(),
        }
    }

    /// The specification of the field at `index`, in declaration order.
    pub open spec fn field(self, index: int) -> FieldSpecView
        recommends
            0 <= index < self.arity(),
    {
        match self {
            ShapeKindView::NoFields => arbitrary(),
            ShapeKindView::PositionalFields(fields) => fields[index],
            ShapeKindView::NamedFields(fields) => fields[index].1,
        }
    }
}

/// What a constructor makes: the struct the builder belongs to, written
/// `Self`, or one variant of the enum it belongs to.
#[derive(Clone, Debug, PartialEq, Eq)]
pub enum Target {
    SelfType,
    Variant { ty: String, variant: String },
}

/// The mathematical value of a [`Target`].
pub ghost enum TargetView {
    SelfType,
    Variant { ty: Seq<char>, variant: Seq<char> },
}

impl View for Target {
    type V = TargetView;

    open spec fn view(&self) -> TargetView {
        match self {
            Target::SelfType => TargetView::SelfType,
            Target::Variant { ty, variant } => TargetView::Variant { ty: ty@, variant: variant@ },
        }
    }
}

/// A constructor: what it makes, and the shape of the fields it fills.
#[derive(Clone, Debug, PartialEq, Eq)]
pub struct Constructor {
    pub target: Target,
    pub shape: ShapeKind,
}

/// The mathematical value of a [`Constructor`].
pub ghost struct ConstructorView {
    pub target: TargetView,
    pub shape: ShapeKindView,
}

impl View for Constructor {
    type V = ConstructorView;

    open spec fn view(&self) -> ConstructorView {
        ConstructorView { target: self.target@, shape: self.shape@ }
    }
}

/// The values of an enum's constructors, each under its variant's name.
pub open spec fn entries_view(entries: Seq<(String, Constructor)>) -> Seq<
    (Seq<char>, ConstructorView),
> {
    entries.map_values(|e: (String, Constructor)| (e.0@, e.1@))
}

/// No two entries of a table have the same name.
pub open spec fn distinct_names(entries: Seq<(Seq<char>, ConstructorView)>) -> bool {
    forall|a: int, b: int|
        0 <= a < b < entries.len() ==> (#[trigger] entries[a]).0 != (#[trigger] entries[b]).0
}

/// What a type offers Lua for making its values.
#[derive(Clone, Debug, PartialEq, Eq)]
pub enum Builder {
    /// The value itself: nothing is called.
    Value(Constructor),
    /// A Lua function that makes the value from its arguments.
    Function(Constructor),
    /// A Lua table that holds, under each variant's name, the value itself
    /// for a variant without fields and a function for any other.
    Table(Vec<(String, Constructor)>),
}

/// The mathematical value of a [`Builder`].
pub ghost enum BuilderView {
    Value(ConstructorView),
    Function(ConstructorView),
    Table(Seq<(Seq<char>, ConstructorView)>),
}

impl BuilderView {
    /// Each variant of a table has a name of its own, so that each can be
    /// selected.
    pub open spec fn well_formed(self) -> bool {
        match self {
            BuilderView::Table(entries) => distinct_names(entries),
            _ => true,
        }
    }
}

impl View for Builder {
    type V = BuilderView;

    open spec fn view(&self) -> BuilderView {
        match self {
            Builder::Value(c) => BuilderView::Value(c@),
            Builder::Function(c) => BuilderView::Function(c@),
            Builder::Table(entries) => BuilderView::Table(entries_view(entries@)),
        }
    }
}

/// An implementation of `LuaBuilder` for the type called `name`.
#[derive(Clone, Debug, PartialEq, Eq)]
pub struct LuaBuilderImpl {
    pub name: String,
    pub builder: Builder,
}

/// The mathematical value of a [`LuaBuilderImpl`].
pub ghost struct LuaBuilderImplView {
    pub name: Seq<char>,
    pub builder: BuilderView,
}

impl View for LuaBuilderImpl {
    type V = LuaBuilderImplView;

    open spec fn view(&self) -> LuaBuilderImplView {
        LuaBuilderImplView { name: self.name@, builder: self.builder@ }
    }
}

/// An empty implementation of `UserData` for the type called `name`.
#[derive(Clone, Debug, PartialEq, Eq)]
pub struct UserDataImpl {
    pub name: String,
}

impl View for UserDataImpl {
    type V = Seq<char>;

    open spec fn view(&self) -> Seq<char> {
        self.name@
    }
}

} // verus!
