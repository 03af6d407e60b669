//! Calling a constructor: what the host is asked to decode, and what the
//! call yields once the host has answered.
//!
//! Decoding a Lua value into a field's declared type is the host's work. A
//! constructor says what it needs decoded ([`Constructor::requests`]), the
//! host answers with one [`Outcome`] per request, and the constructor makes
//! the value from the answers or fails with the first error
//! ([`Constructor::construct`]).
//!
//! A default stands in only for a field that Lua left out. A value that is
//! there but cannot be decoded is an error, with or without a default.
use crate::shape::{
    entries_view, field_specs_view, named_specs_view, Builder, BuilderView, Constructor,
    ConstructorView, FieldSpec, FieldSpecView, ShapeKind, ShapeKindView, Target, TargetView,
};
use vstd::prelude::*;

verus! {

/// A field's value, written as the Rust expression that denotes it: `24`,
/// `"Yan"`, `Some(42)`. A default's literal is such a value as it stands.
pub type Value = String;

/// Where the host finds a field's Lua value: at a position among the call's
/// arguments, or under a name in the table that is the call's one argument.
#[derive(Clone, Debug, PartialEq, Eq)]
pub enum Key {
    Index(usize),
    Name(String),
}

/// The mathematical value of a [`Key`].
pub ghost enum KeyView {
    Index(usize),
    Name(Seq<char>),
}

impl View for Key {
    type V = KeyView;

    open spec fn view(&self) -> KeyView {
        match self {
            Key::Index(i) => KeyView::Index(*i),
            Key::Name(name) => KeyView::Name(name@),
        }
    }
}

/// What the host is asked to decode for one field: the Lua value found at
/// `key`, into the type `ty`. Where `optional` holds the field has a
/// default: the host then answers [`Outcome::Absent`] for a value that is
/// `nil` or left out, and decodes any other.
#[derive(Clone, Debug, PartialEq, Eq)]
pub struct Request {
    pub key: Key,
    pub ty: String,
    pub optional: bool,
}

/// The mathematical value of a [`Request`].
pub ghost struct RequestView {
    pub key: KeyView,
    pub ty: Seq<char>,
    pub optional: bool,
}

impl View for Request {
    type V = RequestView;

    open spec fn view(&self) -> RequestView {
        RequestView { key: self.key@, ty: self.ty@, optional: self.optional }
    }
}

/// The values of requests, in order.
pub open spec fn requests_view(requests: Seq<Request>) -> Seq<RequestView> {
    requests.map_values(|r: Request| r@)
}

/// The host's answer to one request. `E` is the host's error type.
#[derive(Clone, Debug, PartialEq, Eq)]
pub enum Outcome<E> {
    /// The Lua value was decoded into the field's type; so was `nil`, where
    /// the field has no default and its type has a value for `nil`.
    Present(Value),
    /// Lua left the field out, or gave `nil` for it.
    Absent,
    /// The Lua value cannot be decoded into the field's type.
    Incompatible(E),
}

/// The mathematical value of an [`Outcome`].
pub ghost enum OutcomeView<E> {
    Present(Seq<char>),
    Absent,
    Incompatible(E),
}

impl<E> View for Outcome<E> {
    type V = OutcomeView<E>;

    open spec fn view(&self) -> OutcomeView<E> {
        match self {
            Outcome::Present(value) => OutcomeView::Present(value@),
            Outcome::Absent => OutcomeView::Absent,
            Outcome::Incompatible(e) => OutcomeView::Incompatible(*e),
        }
    }
}

/// The values of outcomes, in order.
pub open spec fn outcomes_view<E>(outcomes: Seq<Outcome<E>>) -> Seq<OutcomeView<E>> {
    outcomes.map_values(|o: Outcome<E>| o@)
}

/// Why a call of a constructor made no value. `field` counts the fields in
/// declaration order, from 0.
#[derive(Clone, Debug, PartialEq, Eq)]
pub enum ConstructError<E> {
    /// The call did not bring one answer per field.
    Arity { expected: usize, found: usize },
    /// A field without a default was left out.
    Missing { field: usize },
    /// The host could not decode a field's value; `cause` is its error.
    Incompatible { field: usize, cause: E },
}

/// The fields of a value that a constructor made.
#[derive(Clone, Debug, PartialEq, Eq)]
pub enum InstanceFields {
    Unit,
    /// The values of positional fields, in declaration order.
    Tuple(Vec<Value>),
    /// The values of named fields, each with its name, in declaration order.
    Struct(Vec<(String, Value)>),
}

/// The mathematical value of [`InstanceFields`].
pub ghost enum InstanceFieldsView {
    Unit,
    Tuple(Seq<Seq<char>>),
    Struct(Seq<(Seq<char>, Seq<char>)>),
}

/// The values of field values, in order.
pub open spec fn values_view(values: Seq<Value>) -> Seq<Seq<char>> {
    values.map_values(|v: Value| v@)
}

/// The values of named field values, in order.
pub open spec fn named_values_view(values: Seq<(String, Value)>) -> Seq<(Seq<char>, Seq<char>)> {
    values.map_values(|v: (String, Value)| (v.0@, v.1@))
}

impl View for InstanceFields {
    type V = InstanceFieldsView;

    open spec fn view(&self) -> InstanceFieldsView {
        match self {
            InstanceFields::Unit => InstanceFieldsView::Unit,
            InstanceFields::Tuple(values) => InstanceFieldsView::Tuple(values_view(values@)),
            InstanceFields::Struct(values) => InstanceFieldsView::Struct(
                named_values_view(values@),
            ),
        }
    }
}

/// A value that a constructor made: what it is a value of, and its fields.
#[derive(Clone, Debug, PartialEq, Eq)]
pub struct Instance {
    pub target: Target,
    pub fields: InstanceFields,
}

/// The mathematical value of an [`Instance`].
pub ghost struct InstanceView {
    pub target: TargetView,
    pub fields: InstanceFieldsView,
}

impl View for Instance {
    type V = InstanceView;

    open spec fn view(&self) -> InstanceView {
        InstanceView { target: self.target@, fields: self.fields@ }
    }
}

/// The value of the field at position `field` once the host has answered: a
/// decoded value as it is; the default where the field was left out and has
/// one; else an error.
pub open spec fn resolved<E>(spec: FieldSpecView, field: usize, outcome: OutcomeView<E>) -> Result<
    Seq<char>,
    ConstructError<E>,
> {
    match outcome {
        OutcomeView::Present(value) => Ok(value),
        OutcomeView::Absent => match spec.default {
            Some(literal) => Ok(literal),
            None => Err(ConstructError::Missing { field }),
        },
        OutcomeView::Incompatible(cause) => Err(ConstructError::Incompatible { field, cause }),
    }
}

/// The values of the fields in declaration order, each resolved from the
/// answer at its position; the error of the first field that has one.
pub open spec fn resolved_fields<E>(
    specs: Seq<FieldSpecView>,
    outcomes: Seq<OutcomeView<E>>,
) -> Result<Seq<Seq<char>>, ConstructError<E>>
    recommends
        specs.len() == outcomes.len(),
    decreases specs.len(),
{
    if specs.len() == 0 {
        Ok(Seq::empty())
    } else {
        match resolved_fields(specs.drop_last(), outcomes.drop_last()) {
            Err(e) => Err(e),
            Ok(values) => match resolved(
                specs.last(),
                (specs.len() - 1) as usize,
                outcomes.last(),
            ) {
                Err(e) => Err(e),
                Ok(value) => Ok(values.push(value)),
            },
        }
    }
}

impl ShapeKindView {
    /// How each field is decoded, in declaration order, names left aside.
    pub open spec fn specs(self) -> Seq<FieldSpecView> {
        match self {
            ShapeKindView::NoFields => Seq::empty(),
            ShapeKindView::PositionalFields(fields) => fields,
            ShapeKindView::NamedFields(fields) => Seq::new(fields.len(), |i: int| fields[i].1),
        }
    }

    /// The fields of a value of this shape whose field values are `values`,
    /// in declaration order.
    pub open spec fn filled(self, values: Seq<Seq<char>>) -> InstanceFieldsView
        recommends
            values.len() == self.arity(),
    {
        match self {
            ShapeKindView::NoFields => InstanceFieldsView::Unit,
            ShapeKindView::PositionalFields(_) => InstanceFieldsView::Tuple(values),
            ShapeKindView::NamedFields(fields) => InstanceFieldsView::Struct(
                Seq::new(fields.len(), |i: int| (fields[i].0, values[i])),
            ),
        }
    }

    /// What the host is asked to decode for the field at position `i`.
    pub open spec fn request(self, i: int) -> RequestView
        recommends
            0 <= i < self.arity(),
    {
        RequestView {
            key: match self {
                ShapeKindView::NamedFields(fields) => KeyView::Name(fields[i].0),
                _ => KeyView::Index(i as usize),
            },
            ty: self.field(i).ty,
            optional: self.field(i).default is Some,
        }
    }

    /// What the host is asked to decode: one request per field, in
    /// declaration order, and nothing for a shape without fields.
    pub open spec fn requests(self) -> Seq<RequestView> {
        Seq::new(self.arity(), |i: int| self.request(i))
    }
}

/// What a call of the constructor yields on the host's answers.
///
/// A constructor without fields makes its one value whatever the answers:
/// nothing is decoded. Any other constructor wants one answer per field, and
/// makes the value whose fields are the resolved answers, or fails with the
/// error of the first field that has one. No value is made in part.
pub open spec fn constructed<E>(c: ConstructorView, outcomes: Seq<OutcomeView<E>>) -> Result<
    InstanceView,
    ConstructError<E>,
> {
    if c.shape is NoFields {
        Ok(InstanceView { target: c.target, fields: InstanceFieldsView::Unit })
    } else if outcomes.len() != c.shape.arity() {
        Err(
            ConstructError::Arity {
                expected: c.shape.arity() as usize,
                found: outcomes.len() as usize,
            },
        )
    } else {
        match resolved_fields(c.shape.specs(), outcomes) {
            Ok(values) => Ok(InstanceView { target: c.target, fields: c.shape.filled(values) }),
            Err(e) => Err(e),
        }
    }
}

/// The constructor that a table holds under `name`: that of the last entry
/// with this name, as each entry of a Lua table replaces an earlier one of
/// the same name.
pub open spec fn selected(entries: Seq<(Seq<char>, ConstructorView)>, name: Seq<char>) -> Option<
    ConstructorView,
>
    decreases entries.len(),
{
    if entries.len() == 0 {
        None
    } else if entries.last().0 == name {
        Some(entries.last().1)
    } else {
        selected(entries.drop_last(), name)
    }
}

impl BuilderView {
    /// The constructor of the variant called `name`; only a table has any.
    pub open spec fn member(self, name: Seq<char>) -> Option<ConstructorView> {
        match self {
            BuilderView::Table(entries) => selected(entries, name),
            _ => None,
        }
    }
}

impl Builder {
    /// Selects the constructor of the variant called `variant`.
    ///
    /// Finds one exactly where the builder is a table with an entry of that
    /// name; nothing else is asked of the name.
    pub fn select(&self, variant: &str) -> (found: Option<&Constructor>)
        ensures
            match found {
                Some(c) => self@.member(variant@) == Some(c@),
                None => self@.member(variant@) is None,
            },
    {
        match self {
            Builder::Table(entries) => {
                let name = String::from_str(variant);
                let ghost all = entries_view(entries@);
                let mut i: usize = entries.len();
                assert(all.take(i as int) =~= all);
                while i > 0
                    invariant
                        i <= entries.len(),
                        all == entries_view(entries@),
                        name@ == variant@,
                        self@.member(variant@) == selected(all, variant@),
                        selected(all, variant@) == selected(all.take(i as int), variant@),
                    decreases i,
                {
                    i -= 1;
                    assert(all.take(i + 1).drop_last() =~= all.take(i as int));
                    assert(all.take(i + 1).last() == (entries@[i as int].0@, entries@[i as int].1@));
                    if entries[i].0 == name {
                        return Some(&entries[i].1);
                    }
                }
                None
            },
            _ => None,
        }
    }
}

impl FieldSpec {
    /// The value of this field, at position `field`, once the host has
    /// answered: the decoded value; the default where the field was left out
    /// and has one; [`ConstructError::Missing`] where it was left out and
    /// has none; the host's error where the value cannot be decoded.
    pub fn resolve<E>(&self, field: usize, outcome: Outcome<E>) -> (value: Result<
        Value,
        ConstructError<E>,
    >)
        ensures
            match value {
                Ok(v) => resolved(self@, field, outcome@) == Ok::<Seq<char>, ConstructError<E>>(v@),
                Err(e) => resolved(self@, field, outcome@) == Err::<Seq<char>, ConstructError<E>>(
                    e,
                ),
            },
    {
        match outcome {
            Outcome::Present(value) => Ok(value),
            Outcome::Absent => match &self.default {
                Some(literal) => Ok(literal.clone()),
                None => Err(ConstructError::Missing { field }),
            },
            Outcome::Incompatible(cause) => Err(ConstructError::Incompatible { field, cause }),
        }
    }
}

/// Once the fields up to some position have an error, that is the error of
/// all the fields.
proof fn lemma_resolved_fields_error<E>(
    specs: Seq<FieldSpecView>,
    outcomes: Seq<OutcomeView<E>>,
    i: int,
)
    requires
        specs.len() == outcomes.len(),
        0 <= i < specs.len(),
        resolved_fields(specs.take(i + 1), outcomes.take(i + 1)) is Err,
    ensures
        resolved_fields(specs, outcomes) == resolved_fields(
            specs.take(i + 1),
            outcomes.take(i + 1),
        ),
    decreases specs.len(),
{
    if i + 1 < specs.len() {
        assert(specs.drop_last().take(i + 1) =~= specs.take(i + 1));
        assert(outcomes.drop_last().take(i + 1) =~= outcomes.take(i + 1));
        lemma_resolved_fields_error(specs.drop_last(), outcomes.drop_last(), i);
    } else {
        assert(specs.take(i + 1) =~= specs);
        assert(outcomes.take(i + 1) =~= outcomes);
    }
}

/// A copy of a target.
fn copy_target(target: &Target) -> (copy: Target)
    ensures
        copy@ == target@,
{
    match target {
        Target::SelfType => Target::SelfType,
        Target::Variant { ty, variant } => Target::Variant {
            ty: ty.clone(),
            variant: variant.clone(),
        },
    }
}

/// Resolves positional fields from the answers, in declaration order.
fn resolve_positional<E>(fields: &Vec<FieldSpec>, outcomes: Vec<Outcome<E>>) -> (values: Result<
    Vec<Value>,
    ConstructError<E>,
>)
    requires
        fields.len() == outcomes.len(),
    ensures
        match values {
            Ok(v) => resolved_fields(
                field_specs_view(fields@),
                outcomes_view(outcomes@),
            ) == Ok::<Seq<Seq<char>>, ConstructError<E>>(values_view(v@)),
            Err(e) => resolved_fields(
                field_specs_view(fields@),
                outcomes_view(outcomes@),
            ) == Err::<Seq<Seq<char>>, ConstructError<E>>(e),
        },
{
    let ghost specs = field_specs_view(fields@);
    let ghost answers = outcomes_view(outcomes@);
    let mut rest = outcomes;
    let mut values: Vec<Value> = Vec::new();
    let mut i: usize = 0;
    assert(specs.take(0) =~= Seq::empty());
    assert(values_view(values@) =~= Seq::empty());
    assert(outcomes_view(rest@) =~= answers.subrange(0, answers.len() as int));
    while i < fields.len()
        invariant
            i <= fields.len(),
            specs == field_specs_view(fields@),
            specs.len() == answers.len(),
            rest@.len() == fields.len() - i,
            answers == outcomes_view(outcomes@),
            outcomes_view(rest@) == answers.subrange(i as int, answers.len() as int),
            resolved_fields(specs.take(i as int), answers.take(i as int)) == Ok::<
                Seq<Seq<char>>,
                ConstructError<E>,
            >(values_view(values@)),
        decreases fields.len() - i,
    {
        assert(specs.take(i + 1).drop_last() =~= specs.take(i as int));
        assert(answers.take(i + 1).drop_last() =~= answers.take(i as int));
        assert(outcomes_view(rest@)[0] == rest@[0]@);
        let ghost before = rest@;
        let outcome = rest.remove(0);
        assert(answers.take(i + 1).last() == outcome@);
        assert(specs.take(i + 1).len() - 1 == i);
        assert(outcomes_view(rest@) =~= answers.subrange(i + 1, answers.len() as int)) by {
            assert forall|k: int| 0 <= k < rest@.len() implies outcomes_view(rest@)[k]
                == answers.subrange(i + 1, answers.len() as int)[k] by {
                assert(rest@[k] == before[k + 1]);
                assert(outcomes_view(before)[k + 1] == before[k + 1]@);
            }
        }
        match fields[i].resolve(i, outcome) {
            Ok(value) => {
                assert(values_view(values@.push(value)) =~= values_view(values@).push(value@));
                values.push(value);
            },
            Err(e) => {
                proof {
                    lemma_resolved_fields_error(specs, answers, i as int);
                }
                return Err(e);
            },
        }
        i += 1;
    }
    assert(specs.take(i as int) =~= specs);
    assert(answers.take(i as int) =~= answers);
    Ok(values)
}

/// Resolves named fields from the answers, in declaration order, and puts
/// each value under its field's name.
fn resolve_named<E>(fields: &Vec<(String, FieldSpec)>, outcomes: Vec<Outcome<E>>) -> (values:
    Result<Vec<(String, Value)>, ConstructError<E>>)
    requires
        fields.len() == outcomes.len(),
    ensures
        match values {
            Ok(v) => {
                let shape = ShapeKindView::NamedFields(named_specs_view(fields@));
                exists|resolved: Seq<Seq<char>>|
                    resolved_fields(shape.specs(), outcomes_view(outcomes@)) == Ok::<
                        Seq<Seq<char>>,
                        ConstructError<E>,
                    >(resolved) && shape.filled(resolved) == InstanceFieldsView::Struct(
                        named_values_view(v@),
                    )
            },
            Err(e) => resolved_fields(
                ShapeKindView::NamedFields(named_specs_view(fields@)).specs(),
                outcomes_view(outcomes@),
            ) == Err::<Seq<Seq<char>>, ConstructError<E>>(e),
        },
{
    let ghost named = named_specs_view(fields@);
    let ghost specs = ShapeKindView::NamedFields(named).specs();
    let ghost answers = outcomes_view(outcomes@);
    let ghost mut resolved: Seq<Seq<char>> = Seq::empty();
    let mut rest = outcomes;
    let mut values: Vec<(String, Value)> = Vec::new();
    let mut i: usize = 0;
    assert(specs.take(0) =~= Seq::empty());
    assert(outcomes_view(rest@) =~= answers.subrange(0, answers.len() as int));
    while i < fields.len()
        invariant
            i <= fields.len(),
            named == named_specs_view(fields@),
            specs == ShapeKindView::NamedFields(named).specs(),
            specs.len() == answers.len(),
            specs.len() == fields.len(),
            rest@.len() == fields.len() - i,
            answers == outcomes_view(outcomes@),
            outcomes_view(rest@) == answers.subrange(i as int, answers.len() as int),
            resolved_fields(specs.take(i as int), answers.take(i as int)) == Ok::<
                Seq<Seq<char>>,
                ConstructError<E>,
            >(resolved),
            resolved.len() == i,
            values@.len() == i,
            forall|k: int|
                0 <= k < i ==> (#[trigger] values@[k]).0@ == named[k].0 && values@[k].1@
                    == resolved[k],
        decreases fields.len() - i,
    {
        assert(specs.take(i + 1).drop_last() =~= specs.take(i as int));
        assert(answers.take(i + 1).drop_last() =~= answers.take(i as int));
        assert(specs.take(i + 1).last() == fields@[i as int].1@);
        assert(outcomes_view(rest@)[0] == rest@[0]@);
        let ghost before = rest@;
        let outcome = rest.remove(0);
        assert(answers.take(i + 1).last() == outcome@);
        assert(specs.take(i + 1).len() - 1 == i);
        assert(outcomes_view(rest@) =~= answers.subrange(i + 1, answers.len() as int)) by {
            assert forall|k: int| 0 <= k < rest@.len() implies outcomes_view(rest@)[k]
                == answers.subrange(i + 1, answers.len() as int)[k] by {
                assert(rest@[k] == before[k + 1]);
                assert(outcomes_view(before)[k + 1] == before[k + 1]@);
            }
        }
        match fields[i].1.resolve(i, outcome) {
            Ok(value) => {
                proof {
                    resolved = resolved.push(value@);
                }
                values.push((fields[i].0.clone(), value));
            },
            Err(e) => {
                proof {
                    lemma_resolved_fields_error(specs, answers, i as int);
                }
                return Err(e);
            },
        }
        i += 1;
    }
    assert(specs.take(i as int) =~= specs);
    assert(answers.take(i as int) =~= answers);
    assert(ShapeKindView::NamedFields(named).filled(resolved) == InstanceFieldsView::Struct(
        named_values_view(values@),
    )) by {
        assert(Seq::new(named.len(), |k: int| (named[k].0, resolved[k])) =~= named_values_view(
            values@,
        ));
    }
    Ok(values)
}

impl Constructor {
    /// What the host is asked to decode for a call: one request per field,
    /// in declaration order. A positional field is found at its position, a
    /// named field under its name; a field with a default is optional. A
    /// constructor without fields asks for nothing.
    pub fn requests(&self) -> (requests: Vec<Request>)
        ensures
            requests_view(requests@) == self@.shape.requests(),
    {
        let mut requests: Vec<Request> = Vec::new();
        match &self.shape {
            ShapeKind::NoFields => {},
            ShapeKind::PositionalFields(fields) => {
                let mut i: usize = 0;
                while i < fields.len()
                    invariant
                        i <= fields.len(),
                        self.shape == ShapeKind::PositionalFields(*fields),
                        requests@.len() == i,
                        forall|k: int|
                            0 <= k < i ==> (#[trigger] requests@[k])@ == self@.shape.request(k),
                    decreases fields.len() - i,
                {
                    requests.push(
                        Request {
                            key: Key::Index(i),
                            ty: fields[i].ty.clone(),
                            optional: fields[i].default.is_some(),
                        },
                    );
                    i += 1;
                }
            },
            ShapeKind::NamedFields(fields) => {
                let mut i: usize = 0;
                while i < fields.len()
                    invariant
                        i <= fields.len(),
                        self.shape == ShapeKind::NamedFields(*fields),
                        requests@.len() == i,
                        forall|k: int|
                            0 <= k < i ==> (#[trigger] requests@[k])@ == self@.shape.request(k),
                    decreases fields.len() - i,
                {
                    requests.push(
                        Request {
                            key: Key::Name(fields[i].0.clone()),
                            ty: fields[i].1.ty.clone(),
                            optional: fields[i].1.default.is_some(),
                        },
                    );
                    i += 1;
                }
            },
        }
        assert(requests_view(requests@) =~= self@.shape.requests());
        requests
    }

    /// Makes the value that a call yields on the host's answers.
    ///
    /// A constructor without fields always makes its one value. Any other
    /// fails with [`ConstructError::Arity`] exactly where there is not one
    /// answer per field; else with the error of the first field, in
    /// declaration order, that was left out without a default or could not
    /// be decoded; else it makes the value whose fields are the decoded
    /// values, with the default in place of each field left out.
    pub fn construct<E>(&self, outcomes: Vec<Outcome<E>>) -> (made: Result<
        Instance,
        ConstructError<E>,
    >)
        ensures
            match made {
                Ok(value) => constructed(self@, outcomes_view(outcomes@)) == Ok::<
                    InstanceView,
                    ConstructError<E>,
                >(value@),
                Err(e) => constructed(self@, outcomes_view(outcomes@)) == Err::<
                    InstanceView,
                    ConstructError<E>,
                >(e),
            },
    {
        match &self.shape {
            ShapeKind::NoFields => Ok(
                Instance { target: copy_target(&self.target), fields: InstanceFields::Unit },
            ),
            ShapeKind::PositionalFields(fields) => {
                if outcomes.len() != fields.len() {
                    return Err(
                        ConstructError::Arity { expected: fields.len(), found: outcomes.len() },
                    );
                }
                match resolve_positional(fields, outcomes) {
                    Ok(values) => Ok(
                        Instance {
                            target: copy_target(&self.target),
                            fields: InstanceFields::Tuple(values),
                        },
                    ),
                    Err(e) => Err(e),
                }
            },
            ShapeKind::NamedFields(fields) => {
                if outcomes.len() != fields.len() {
                    return Err(
                        ConstructError::Arity { expected: fields.len(), found: outcomes.len() },
                    );
                }
                match resolve_named(fields, outcomes) {
                    Ok(values) => Ok(
                        Instance {
                            target: copy_target(&self.target),
                            fields: InstanceFields::Struct(values),
                        },
                    ),
                    Err(e) => Err(e),
                }
            },
        }
    }
}

} // verus!
