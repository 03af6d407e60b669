//! Writing a derived builder down as Rust source text.
//!
//! The text is the `impl` of `LuaBuilder` that provides the builder through
//! `rlua`: a field is decoded by `rlua` into its declared type, or into an
//! `Option` of it where the field has a default, and `unwrap_or` then puts
//! the default in place of a field that Lua left out.
use crate::shape::{
    entries_view, field_specs_view, named_specs_view, Builder, BuilderView, Constructor,
    ConstructorView, FieldSpec, FieldSpecView, LuaBuilderImpl, LuaBuilderImplView, ShapeKind,
    ShapeKindView, Target, TargetView, UserDataImpl,
};
use vstd::prelude::*;

verus! {

/// The text of one decimal digit.
pub open spec fn digit_text(d: nat) -> Seq<char>
    recommends
        d < 10,
{
    if d == 0 {
        "0"@
    } else if d == 1 {
        "1"@
    } else if d == 2 {
        "2"@
    } else if d == 3 {
        "3"@
    } else if d == 4 {
        "4"@
    } else if d == 5 {
        "5"@
    } else if d == 6 {
        "6"@
    } else if d == 7 {
        "7"@
    } else if d == 8 {
        "8"@
    } else {
        "9"@
    }
}

/// A number written in decimal, without sign or leading zero.
pub open spec fn decimal_text(n: nat) -> Seq<char>
    decreases n,
{
    if n < 10 {
        digit_text(n)
    } else {
        decimal_text(n / 10) + digit_text(n % 10)
    }
}

impl FieldSpecView {
    /// The type that the host decodes the field into: the declared type, or
    /// an `Option` of it where the field has a default.
    pub open spec fn decoded_type(self) -> Seq<char> {
        match self.default {
            Some(_) => "::std::option::Option<"@ + self.ty + ">"@,
            None => self.ty,
        }
    }

    /// What follows the decoded field: `unwrap_or` with the default's
    /// literal where the field has a default, else nothing.
    pub open spec fn unwrap(self) -> Seq<char> {
        match self.default {
            Some(literal) => ".unwrap_or("@ + literal + ")"@,
            None => Seq::empty(),
        }
    }
}

impl TargetView {
    /// The path that names what is made.
    pub open spec fn rendered(self) -> Seq<char> {
        match self {
            TargetView::SelfType => "Self"@,
            TargetView::Variant { ty, variant } => ty + "::"@ + variant,
        }
    }
}

/// The types of the arguments of a positional constructor, each followed by
/// a comma.
pub open spec fn rendered_types(fields: Seq<FieldSpecView>) -> Seq<char>
    decreases fields.len(),
{
    if fields.len() == 0 {
        Seq::empty()
    } else {
        rendered_types(fields.drop_last()) + (fields.last().decoded_type() + ", "@)
    }
}

/// The fields of a positional constructor, each taken from the argument at
/// its position and followed by a comma.
pub open spec fn rendered_items(fields: Seq<FieldSpecView>) -> Seq<char>
    decreases fields.len(),
{
    if fields.len() == 0 {
        Seq::empty()
    } else {
        rendered_items(fields.drop_last()) + ("args."@ + decimal_text(
            (fields.len() - 1) as nat,
        ) + fields.last().unwrap() + ", "@)
    }
}

/// One field of a constructor with named fields: taken from the table under
/// the field's name, and followed by a comma.
pub open spec fn rendered_named_field(name: Seq<char>, spec: FieldSpecView) -> Seq<char> {
    name + ": data.get::<_, "@ + spec.decoded_type() + ">(stringify!("@ + name + "))?"@
        + spec.unwrap() + ", "@
}

/// The fields of a constructor with named fields, in order.
pub open spec fn rendered_named(fields: Seq<(Seq<char>, FieldSpecView)>) -> Seq<char>
    decreases fields.len(),
{
    if fields.len() == 0 {
        Seq::empty()
    } else {
        rendered_named(fields.drop_last()) + rendered_named_field(
            fields.last().0,
            fields.last().1,
        )
    }
}

impl ConstructorView {
    /// The expression that yields the builder: the value itself for no
    /// fields, else a function made with `create_function`.
    pub open spec fn rendered(self) -> Seq<char> {
        match self.shape {
            ShapeKindView::NoFields => "Ok("@ + self.target.rendered() + ")"@,
            ShapeKindView::PositionalFields(fields) => "ctx.create_function(|_, args: ("@
                + rendered_types(fields) + ")| { Ok("@ + self.target.rendered() + "("@
                + rendered_items(fields) + ")) })"@,
            ShapeKindView::NamedFields(fields) =>
                "ctx.create_function(|_, data: rlua::Table<'s>| { Ok("@ + self.target.rendered()
                    + " { "@ + rendered_named(fields) + "}) })"@,
        }
    }
}

/// One statement that puts a variant's builder into the table.
pub open spec fn rendered_entry(name: Seq<char>, c: ConstructorView) -> Seq<char> {
    "t.set(stringify!("@ + name + "), "@ + c.rendered() + "?)?; "@
}

/// The statements that fill an enum's table, in order.
pub open spec fn rendered_entries(entries: Seq<(Seq<char>, ConstructorView)>) -> Seq<char>
    decreases entries.len(),
{
    if entries.len() == 0 {
        Seq::empty()
    } else {
        rendered_entries(entries.drop_last()) + rendered_entry(
            entries.last().0,
            entries.last().1,
        )
    }
}

impl BuilderView {
    /// What the builder is to `rlua`: the type itself, a function or a
    /// table.
    pub open spec fn lua_type(self) -> Seq<char> {
        match self {
            BuilderView::Value(_) => "Self"@,
            BuilderView::Function(_) => "rlua::Function<'s>"@,
            BuilderView::Table(_) => "rlua::Table<'s>"@,
        }
    }

    /// The body of the method `builder`.
    pub open spec fn body(self) -> Seq<char> {
        match self {
            BuilderView::Value(c) => c.rendered(),
            BuilderView::Function(c) => c.rendered(),
            BuilderView::Table(entries) => "let t = ctx.create_table()?; "@ + rendered_entries(
                entries,
            ) + "Ok(t)"@,
        }
    }
}

impl LuaBuilderImplView {
    /// The `impl` of `LuaBuilder` for the type.
    pub open spec fn rendered(self) -> Seq<char> {
        "impl<'s> LuaBuilder<'s, "@ + self.builder.lua_type() + "> for "@ + self.name
            + " { fn builder(ctx: rlua::Context<'s>) -> rlua::Result<"@ + self.builder.lua_type()
            + "> { "@ + self.builder.body() + " } }"@
    }
}

/// The empty `impl` of `UserData` for the type called `name`.
pub open spec fn rendered_user_data(name: Seq<char>) -> Seq<char> {
    "impl UserData for "@ + name + " {}"@
}

/// The text of one decimal digit.
fn digit(d: usize) -> (text: &'static str)
    requires
        d < 10,
    ensures
        text@ == digit_text(d as nat),
{
    if d == 0 {
        "0"
    } else if d == 1 {
        "1"
    } else if d == 2 {
        "2"
    } else if d == 3 {
        "3"
    } else if d == 4 {
        "4"
    } else if d == 5 {
        "5"
    } else if d == 6 {
        "6"
    } else if d == 7 {
        "7"
    } else if d == 8 {
        "8"
    } else {
        "9"
    }
}

/// Writes a number in decimal.
pub fn decimal(n: usize) -> (text: String)
    ensures
        text@ == decimal_text(n as nat),
    decreases n,
{
    if n < 10 {
        String::from_str(digit(n))
    } else {
        let mut text = decimal(n / 10);
        text.append(digit(n % 10));
        text
    }
}

impl FieldSpec {
    /// Writes the type that the host decodes the field into.
    pub fn decoded_type(&self) -> (text: String)
        ensures
            text@ == self@.decoded_type(),
    {
        match &self.default {
            Some(_) => {
                let mut text = String::from_str("::std::option::Option<");
                text.append(self.ty.as_str());
                text.append(">");
                text
            },
            None => self.ty.clone(),
        }
    }

    /// Writes what follows the decoded field.
    pub fn unwrap(&self) -> (text: String)
        ensures
            text@ == self@.unwrap(),
    {
        match &self.default {
            Some(literal) => {
                let mut text = String::from_str(".unwrap_or(");
                text.append(literal.as_str());
                text.append(")");
                text
            },
            None => String::new(),
        }
    }
}

impl Target {
    /// Writes the path that names what is made.
    pub fn render(&self) -> (text: String)
        ensures
            text@ == self@.rendered(),
    {
        match self {
            Target::SelfType => String::from_str("Self"),
            Target::Variant { ty, variant } => {
                let mut text = ty.clone();
                text.append("::");
                text.append(variant.as_str());
                text
            },
        }
    }
}

/// Writes the types of a positional constructor's arguments.
fn render_types(fields: &Vec<FieldSpec>) -> (text: String)
    ensures
        text@ == rendered_types(field_specs_view(fields@)),
{
    let ghost all = field_specs_view(fields@);
    let mut text = String::new();
    let mut i: usize = 0;
    assert(all.take(0) =~= Seq::empty());
    while i < fields.len()
        invariant
            i <= fields.len(),
            all == field_specs_view(fields@),
            text@ == rendered_types(all.take(i as int)),
        decreases fields.len() - i,
    {
        assert(all.take(i + 1).drop_last() =~= all.take(i as int));
        assert(all.take(i + 1).last() == fields@[i as int]@);
        let mut item = fields[i].decoded_type();
        item.append(", ");
        text.append(item.as_str());
        i += 1;
    }
    assert(all.take(i as int) =~= all);
    text
}

/// Writes the fields of a positional constructor.
fn render_items(fields: &Vec<FieldSpec>) -> (text: String)
    ensures
        text@ == rendered_items(field_specs_view(fields@)),
{
    let ghost all = field_specs_view(fields@);
    let mut text = String::new();
    let mut i: usize = 0;
    assert(all.take(0) =~= Seq::empty());
    while i < fields.len()
        invariant
            i <= fields.len(),
            all == field_specs_view(fields@),
            text@ == rendered_items(all.take(i as int)),
        decreases fields.len() - i,
    {
        assert(all.take(i + 1).drop_last() =~= all.take(i as int));
        assert(all.take(i + 1).last() == fields@[i as int]@);
        let mut item = String::from_str("args.");
        item.append(decimal(i).as_str());
        item.append(fields[i].unwrap().as_str());
        item.append(", ");
        text.append(item.as_str());
        i += 1;
    }
    assert(all.take(i as int) =~= all);
    text
}

/// Writes the fields of a constructor with named fields.
fn render_named(fields: &Vec<(String, FieldSpec)>) -> (text: String)
    ensures
        text@ == rendered_named(named_specs_view(fields@)),
{
    let ghost all = named_specs_view(fields@);
    let mut text = String::new();
    let mut i: usize = 0;
    assert(all.take(0) =~= Seq::empty());
    while i < fields.len()
        invariant
            i <= fields.len(),
            all == named_specs_view(fields@),
            text@ == rendered_named(all.take(i as int)),
        decreases fields.len() - i,
    {
        assert(all.take(i + 1).drop_last() =~= all.take(i as int));
        assert(all.take(i + 1).last() == (fields@[i as int].0@, fields@[i as int].1@));
        let name = &fields[i].0;
        let spec = &fields[i].1;
        let mut item = name.clone();
        item.append(": data.get::<_, ");
        item.append(spec.decoded_type().as_str());
        item.append(">(stringify!(");
        item.append(name.as_str());
        item.append("))?");
        item.append(spec.unwrap().as_str());
        item.append(", ");
        text.append(item.as_str());
        i += 1;
    }
    assert(all.take(i as int) =~= all);
    text
}

impl Constructor {
    /// Writes the expression that yields the builder.
    pub fn render(&self) -> (text: String)
        ensures
            text@ == self@.rendered(),
    {
        match &self.shape {
            ShapeKind::NoFields => {
                let mut text = String::from_str("Ok(");
                text.append(self.target.render().as_str());
                text.append(")");
                text
            },
            ShapeKind::PositionalFields(fields) => {
                let mut text = String::from_str("ctx.create_function(|_, args: (");
                text.append(render_types(fields).as_str());
                text.append(")| { Ok(");
                text.append(self.target.render().as_str());
                text.append("(");
                text.append(render_items(fields).as_str());
                text.append(")) })");
                text
            },
            ShapeKind::NamedFields(fields) => {
                let mut text = String::from_str(
                    "ctx.create_function(|_, data: rlua::Table<'s>| { Ok(",
                );
                text.append(self.target.render().as_str());
                text.append(" { ");
                text.append(render_named(fields).as_str());
                text.append("}) })");
                text
            },
        }
    }
}

/// Writes the statements that fill an enum's table.
fn render_entries(entries: &Vec<(String, Constructor)>) -> (text: String)
    ensures
        text@ == rendered_entries(entries_view(entries@)),
{
    let ghost all = entries_view(entries@);
    let mut text = String::new();
    let mut i: usize = 0;
    assert(all.take(0) =~= Seq::empty());
    while i < entries.len()
        invariant
            i <= entries.len(),
            all == entries_view(entries@),
            text@ == rendered_entries(all.take(i as int)),
        decreases entries.len() - i,
    {
        assert(all.take(i + 1).drop_last() =~= all.take(i as int));
        assert(all.take(i + 1).last() == (entries@[i as int].0@, entries@[i as int].1@));
        let mut item = String::from_str("t.set(stringify!(");
        item.append(entries[i].0.as_str());
        item.append("), ");
        item.append(entries[i].1.render().as_str());
        item.append("?)?; ");
        text.append(item.as_str());
        i += 1;
    }
    assert(all.take(i as int) =~= all);
    text
}

impl Builder {
    /// Writes what the builder is to `rlua`.
    pub fn lua_type(&self) -> (text: &'static str)
        ensures
            text@ == self@.lua_type(),
    {
        match self {
            Builder::Value(_) => "Self",
            Builder::Function(_) => "rlua::Function<'s>",
            Builder::Table(_) => "rlua::Table<'s>",
        }
    }

    /// Writes the body of the method `builder`.
    pub fn body(&self) -> (text: String)
        ensures
            text@ == self@.body(),
    {
        match self {
            Builder::Value(c) => c.render(),
            Builder::Function(c) => c.render(),
            Builder::Table(entries) => {
                let mut text = String::from_str("let t = ctx.create_table()?; ");
                text.append(render_entries(entries).as_str());
                text.append("Ok(t)");
                text
            },
        }
    }
}

impl LuaBuilderImpl {
    /// Writes the `impl` of `LuaBuilder` for the type: its builder is the
    /// type itself, a function or a table, and the method `builder` yields
    /// it.
    pub fn render(&self) -> (text: String)
        ensures
            text@ == self@.rendered(),
    {
        let mut text = String::from_str("impl<'s> LuaBuilder<'s, ");
        text.append(self.builder.lua_type());
        text.append("> for ");
        text.append(self.name.as_str());
        text.append(" { fn builder(ctx: rlua::Context<'s>) -> rlua::Result<");
        text.append(self.builder.lua_type());
        text.append("> { ");
        text.append(self.builder.body().as_str());
        text.append(" } }");
        text
    }
}

impl UserDataImpl {
    /// Writes the empty `impl` of `UserData` for the type.
    pub fn render(&self) -> (text: String)
        ensures
            text@ == rendered_user_data(self@),
    {
        let mut text = String::from_str("impl UserData for ");
        text.append(self.name.as_str());
        text.append(" {}");
        text
    }
}

} // verus!
