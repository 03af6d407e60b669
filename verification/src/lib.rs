//! Builders that let Lua construct Rust structs and enums with nearly the
//! syntax Rust itself uses.
//!
//! The crate works on a plain description of a type definition
//! ([`DeriveInput`]). From it, [`derive_struct_builder`] derives the builder
//! of the type: for a unit struct the value itself, for a tuple struct a
//! function of the tuple's items in order, for a struct with named fields a
//! function of one table, and for an enum a table with one such builder per
//! variant. A field marked `#[default = VALUE]` may be left out in Lua; the
//! literal then stands in for it.
//!
//! A definition has a builder unless it is a union or holds a malformed
//! `default` attribute. [`check_definition`] tells which, before anything is
//! derived; the deriving functions take only definitions that have one.
//!
//! [`LuaBuilderImpl::render`] writes the derived builder down as the Rust
//! `impl` that provides it through `rlua`, and [`Constructor::construct`]
//! says what a call of a builder yields once the host has decoded the
//! arguments. [`laws`] holds what is proved of every builder and every call.
pub mod derive;
pub mod invoke;
pub mod laws;
pub mod render;
pub mod shape;
pub mod syntax;

pub use derive::{check_definition, derive_struct_builder, derive_user_data, GenerationError};
pub use invoke::{ConstructError, Instance, InstanceFields, Key, Outcome, Request, Value};
pub use shape::{
    Builder, Constructor, FieldSpec, LuaBuilderImpl, ShapeKind, Target, UserDataImpl,
};
pub use syntax::{Attribute, Data, DeriveInput, Field, Fields, Meta, Variant};
