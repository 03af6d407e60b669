//! What holds of every constructor and every call, proved from the
//! definitions in [`crate::derive`] and [`crate::invoke`].
use crate::derive::{
    constructor_for, default_attribute, derived_builder, field_spec, field_specs, named_specs,
    shape_of, variant_entries, GenerationError, DEFAULT,
};
use crate::invoke::{
    constructed, resolved, resolved_fields, selected, ConstructError, InstanceFieldsView,
    InstanceView, OutcomeView,
};
use crate::shape::{
    distinct_names, ConstructorView, FieldSpecView, LuaBuilderImplView, ShapeKindView, TargetView,
};
use crate::syntax::{
    distinct_idents, AttributeView, DataView, DeriveInputView, FieldView, FieldsView, MetaView,
    VariantView,
};
use vstd::prelude::*;

verus! {

/// The answers of a host that decoded every one of `values`.
pub open spec fn presented<E>(values: Seq<Seq<char>>) -> Seq<OutcomeView<E>> {
    Seq::new(values.len(), |i: int| OutcomeView::Present(values[i]))
}

/// The attribute that gives a field its default is the first one called
/// `default`: no attribute before it has that name, and a field has no such
/// attribute only where none of its attributes has that name.
pub proof fn lemma_default_attribute_is_first(attrs: Seq<AttributeView>)
    ensures
        match default_attribute(attrs) {
            Some(attr) => exists|i: int|
                0 <= i < attrs.len() && #[trigger] attrs[i] == attr && attr.path == DEFAULT@
                    && forall|j: int| 0 <= j < i ==> (#[trigger] attrs[j]).path != DEFAULT@,
            None => forall|j: int| 0 <= j < attrs.len() ==> (#[trigger] attrs[j]).path != DEFAULT@,
        },
    decreases attrs.len(),
{
    if attrs.len() > 0 && attrs[0].path != DEFAULT@ {
        let rest = attrs.drop_first();
        lemma_default_attribute_is_first(rest);
        match default_attribute(rest) {
            Some(attr) => {
                let i = choose|i: int|
                    0 <= i < rest.len() && #[trigger] rest[i] == attr && attr.path == DEFAULT@
                        && forall|j: int| 0 <= j < i ==> (#[trigger] rest[j]).path != DEFAULT@;
                assert(attrs[i + 1] == attr);
                assert forall|j: int| 0 <= j < i + 1 implies (#[trigger] attrs[j]).path
                    != DEFAULT@ by {
                    if j > 0 {
                        assert(rest[j - 1] == attrs[j]);
                    }
                }
            },
            None => {
                assert forall|j: int| 0 <= j < attrs.len() implies (#[trigger] attrs[j]).path
                    != DEFAULT@ by {
                    if j > 0 {
                        assert(rest[j - 1] == attrs[j]);
                    }
                }
            },
        }
    } else if attrs.len() > 0 {
        assert(attrs[0] == attrs[0]);
    }
}

/// A field can be decoded exactly where it has no `default` attribute or the
/// first one is of the form `= literal`; nothing else is ever held against
/// a field.
pub proof fn lemma_field_decodes_iff(field: FieldView)
    ensures
        field_spec(field) is Ok <==> (default_attribute(field.attrs) matches Some(attr)
            ==> attr.meta matches Some(MetaView::NameValue(_))),
        field_spec(field) is Err ==> field_spec(field) == Err::<FieldSpecView, GenerationError>(
            GenerationError::InvalidDefault,
        ),
{
}

/// Every field of the fields can be decoded.
pub open spec fn all_fields_decode(fields: FieldsView) -> bool {
    match fields {
        FieldsView::Unit => true,
        FieldsView::Unnamed(unnamed) => forall|k: int|
            0 <= k < unnamed.len() ==> field_spec(#[trigger] unnamed[k]) is Ok,
        FieldsView::Named(named) => forall|k: int|
            0 <= k < named.len() ==> field_spec((#[trigger] named[k]).1) is Ok,
    }
}

/// Fields have a shape exactly where every one of them can be decoded, and
/// the only error is that of a malformed default.
pub proof fn lemma_shape_iff_all_fields_decode(fields: FieldsView)
    ensures
        shape_of(fields) is Ok <==> all_fields_decode(fields),
        shape_of(fields) is Err ==> shape_of(fields) == Err::<ShapeKindView, GenerationError>(
            GenerationError::InvalidDefault,
        ),
{
    match fields {
        FieldsView::Unit => {},
        FieldsView::Unnamed(unnamed) => {
            lemma_field_specs_field_by_field(unnamed);
            if field_specs(unnamed) is Err {
                let e = field_specs(unnamed)->Err_0;
                let i = choose|i: int|
                    0 <= i < unnamed.len() && field_spec(#[trigger] unnamed[i]) == Err::<
                        FieldSpecView,
                        GenerationError,
                    >(e);
                lemma_field_decodes_iff(unnamed[i]);
            }
        },
        FieldsView::Named(named) => {
            lemma_named_specs_field_by_field(named);
            if named_specs(named) is Err {
                let e = named_specs(named)->Err_0;
                let i = choose|i: int|
                    0 <= i < named.len() && field_spec((#[trigger] named[i]).1) == Err::<
                        FieldSpecView,
                        GenerationError,
                    >(e);
                lemma_field_decodes_iff(named[i].1);
            }
        },
    }
}

/// An enum has a table exactly where the fields of every variant have a
/// shape; else the error is that of the first variant, in declaration
/// order, whose fields have none.
pub proof fn lemma_entries_variant_by_variant(name: Seq<char>, variants: Seq<VariantView>)
    ensures
        match variant_entries(name, variants) {
            Ok(_) => forall|k: int|
                0 <= k < variants.len() ==> shape_of((#[trigger] variants[k]).fields) is Ok,
            Err(e) => exists|i: int|
                0 <= i < variants.len() && shape_of((#[trigger] variants[i]).fields) == Err::<
                    ShapeKindView,
                    GenerationError,
                >(e) && forall|k: int|
                    0 <= k < i ==> shape_of((#[trigger] variants[k]).fields) is Ok,
        },
    decreases variants.len(),
{
    if variants.len() > 0 {
        let front = variants.drop_last();
        lemma_entries_variant_by_variant(name, front);
        match variant_entries(name, front) {
            Ok(_) => {
                assert forall|k: int| 0 <= k < front.len() implies shape_of(
                    (#[trigger] variants[k]).fields,
                ) is Ok by {
                    assert(front[k] == variants[k]);
                }
                assert(variants[variants.len() - 1] == variants.last());
            },
            Err(e) => {
                let i = choose|i: int|
                    0 <= i < front.len() && shape_of((#[trigger] front[i]).fields) == Err::<
                        ShapeKindView,
                        GenerationError,
                    >(e) && forall|k: int| 0 <= k < i ==> shape_of((#[trigger] front[k]).fields) is Ok;
                assert(front[i] == variants[i]);
                assert forall|k: int| 0 <= k < i implies shape_of(
                    (#[trigger] variants[k]).fields,
                ) is Ok by {
                    assert(front[k] == variants[k]);
                }
            },
        }
    }
}

/// A definition has a builder exactly where it is a struct whose fields
/// have a shape or an enum whose variants' fields all have one. It is
/// refused as unsupported exactly where it is a union, and for a malformed
/// default in every other case.
pub proof fn lemma_definition_has_builder_iff(input: DeriveInputView)
    ensures
        derived_builder(input) is Ok <==> match input.data {
            DataView::Struct(fields) => shape_of(fields) is Ok,
            DataView::Enum(variants) => forall|k: int|
                0 <= k < variants.len() ==> shape_of((#[trigger] variants[k]).fields) is Ok,
            DataView::Union => false,
        },
        derived_builder(input) == Err::<LuaBuilderImplView, GenerationError>(
            GenerationError::UnsupportedData,
        ) <==> input.data is Union,
{
    match input.data {
        DataView::Struct(fields) => {
            lemma_shape_iff_all_fields_decode(fields);
        },
        DataView::Enum(variants) => {
            lemma_entries_variant_by_variant(input.ident, variants);
            if variant_entries(input.ident, variants) is Err {
                let e = variant_entries(input.ident, variants)->Err_0;
                let i = choose|i: int|
                    0 <= i < variants.len() && shape_of((#[trigger] variants[i]).fields) == Err::<
                        ShapeKindView,
                        GenerationError,
                    >(e);
                lemma_shape_iff_all_fields_decode(variants[i].fields);
            }
        },
        DataView::Union => {},
    }
}

/// The fields of a definition are decoded field by field: where all can be,
/// each in the way its own attributes say; else the error is that of the
/// first field, in declaration order, whose `default` attribute is
/// malformed.
pub proof fn lemma_field_specs_field_by_field(fields: Seq<FieldView>)
    ensures
        match field_specs(fields) {
            Ok(specs) => specs.len() == fields.len() && forall|k: int|
                0 <= k < fields.len() ==> field_spec(#[trigger] fields[k]) == Ok::<
                    FieldSpecView,
                    GenerationError,
                >(specs[k]),
            Err(e) => exists|i: int|
                0 <= i < fields.len() && field_spec(#[trigger] fields[i]) == Err::<
                    FieldSpecView,
                    GenerationError,
                >(e) && forall|k: int| 0 <= k < i ==> field_spec(#[trigger] fields[k]) is Ok,
        },
    decreases fields.len(),
{
    if fields.len() > 0 {
        let front = fields.drop_last();
        lemma_field_specs_field_by_field(front);
        match field_specs(front) {
            Ok(specs) => {
                assert forall|k: int| 0 <= k < front.len() implies field_spec(
                    #[trigger] fields[k],
                ) is Ok by {
                    assert(front[k] == fields[k]);
                }
                match field_spec(fields.last()) {
                    Ok(spec) => {
                        assert forall|k: int| 0 <= k < fields.len() implies field_spec(
                            #[trigger] fields[k],
                        ) == Ok::<FieldSpecView, GenerationError>(specs.push(spec)[k]) by {
                            if k < front.len() {
                                assert(front[k] == fields[k]);
                            }
                        }
                    },
                    Err(e) => {
                        assert(fields[fields.len() - 1] == fields.last());
                    },
                }
            },
            Err(e) => {
                let i = choose|i: int|
                    0 <= i < front.len() && field_spec(#[trigger] front[i]) == Err::<
                        FieldSpecView,
                        GenerationError,
                    >(e) && forall|k: int| 0 <= k < i ==> field_spec(#[trigger] front[k]) is Ok;
                assert(front[i] == fields[i]);
                assert forall|k: int| 0 <= k < i implies field_spec(#[trigger] fields[k]) is Ok by {
                    assert(front[k] == fields[k]);
                }
            },
        }
    }
}

/// Named fields are decoded as positional fields are, and keep their names
/// and their order.
pub proof fn lemma_named_specs_field_by_field(fields: Seq<(Seq<char>, FieldView)>)
    ensures
        match named_specs(fields) {
            Ok(specs) => specs.len() == fields.len() && forall|k: int|
                0 <= k < fields.len() ==> specs[k].0 == (#[trigger] fields[k]).0 && field_spec(
                    fields[k].1,
                ) == Ok::<FieldSpecView, GenerationError>(specs[k].1),
            Err(e) => exists|i: int|
                0 <= i < fields.len() && field_spec((#[trigger] fields[i]).1) == Err::<
                    FieldSpecView,
                    GenerationError,
                >(e) && forall|k: int| 0 <= k < i ==> field_spec((#[trigger] fields[k]).1) is Ok,
        },
    decreases fields.len(),
{
    if fields.len() > 0 {
        let front = fields.drop_last();
        lemma_named_specs_field_by_field(front);
        match named_specs(front) {
            Ok(specs) => {
                assert forall|k: int| 0 <= k < front.len() implies field_spec(
                    (#[trigger] fields[k]).1,
                ) is Ok by {
                    assert(front[k] == fields[k]);
                }
                match field_spec(fields.last().1) {
                    Ok(spec) => {
                        let all = specs.push((fields.last().0, spec));
                        assert forall|k: int| 0 <= k < fields.len() implies all[k].0 == (
                        #[trigger] fields[k]).0 && field_spec(fields[k].1) == Ok::<
                            FieldSpecView,
                            GenerationError,
                        >(all[k].1) by {
                            if k < front.len() {
                                assert(front[k] == fields[k]);
                            }
                        }
                    },
                    Err(e) => {
                        assert(fields[fields.len() - 1] == fields.last());
                    },
                }
            },
            Err(e) => {
                let i = choose|i: int|
                    0 <= i < front.len() && field_spec((#[trigger] front[i]).1) == Err::<
                        FieldSpecView,
                        GenerationError,
                    >(e) && forall|k: int| 0 <= k < i ==> field_spec((#[trigger] front[k]).1) is Ok;
                assert(front[i] == fields[i]);
                assert forall|k: int| 0 <= k < i implies field_spec((#[trigger] fields[k]).1) is Ok by {
                    assert(front[k] == fields[k]);
                }
            },
        }
    }
}

/// A name selects the last entry of a table that has the name, and selects
/// nothing only where no entry has it.
pub proof fn lemma_selected_is_last(entries: Seq<(Seq<char>, ConstructorView)>, name: Seq<char>)
    ensures
        match selected(entries, name) {
            Some(c) => exists|i: int|
                0 <= i < entries.len() && #[trigger] entries[i] == (name, c) && forall|j: int|
                    i < j < entries.len() ==> (#[trigger] entries[j]).0 != name,
            None => forall|j: int| 0 <= j < entries.len() ==> (#[trigger] entries[j]).0 != name,
        },
    decreases entries.len(),
{
    if entries.len() > 0 {
        if entries.last().0 == name {
            assert(entries[entries.len() - 1] == (name, entries.last().1));
        } else {
            let front = entries.drop_last();
            lemma_selected_is_last(front, name);
            match selected(front, name) {
                Some(c) => {
                    let i = choose|i: int|
                        0 <= i < front.len() && #[trigger] front[i] == (name, c) && forall|j: int|
                            i < j < front.len() ==> (#[trigger] front[j]).0 != name;
                    assert(entries[i] == (name, c));
                    assert forall|j: int| i < j < entries.len() implies (#[trigger] entries[j]).0
                        != name by {
                        if j < front.len() {
                            assert(front[j] == entries[j]);
                        }
                    }
                },
                None => {
                    assert forall|j: int| 0 <= j < entries.len() implies (#[trigger] entries[j]).0
                        != name by {
                        if j < front.len() {
                            assert(front[j] == entries[j]);
                        }
                    }
                },
            }
        }
    }
}

/// Where every field resolves, the fields resolve to those values, in order.
pub proof fn lemma_all_fields_resolve<E>(
    specs: Seq<FieldSpecView>,
    outcomes: Seq<OutcomeView<E>>,
)
    requires
        specs.len() == outcomes.len(),
        forall|k: int|
            0 <= k < specs.len() ==> (#[trigger] resolved(specs[k], k as usize, outcomes[k])) is Ok,
    ensures
        resolved_fields(specs, outcomes) == Ok::<Seq<Seq<char>>, ConstructError<E>>(
            Seq::new(specs.len(), |k: int| resolved(specs[k], k as usize, outcomes[k])->Ok_0),
        ),
    decreases specs.len(),
{
    if specs.len() > 0 {
        let n = specs.len() - 1;
        assert forall|k: int| 0 <= k < n implies (#[trigger] resolved(
            specs.drop_last()[k],
            k as usize,
            outcomes.drop_last()[k],
        )) is Ok by {
            assert(resolved(specs[k], k as usize, outcomes[k]) is Ok);
        }
        lemma_all_fields_resolve(specs.drop_last(), outcomes.drop_last());
        assert(resolved(specs[n], n as usize, outcomes[n]) is Ok);
        assert(Seq::new(
            n as nat,
            |k: int| resolved(specs.drop_last()[k], k as usize, outcomes.drop_last()[k])->Ok_0,
        ).push(resolved(specs[n], n as usize, outcomes[n])->Ok_0) =~= Seq::new(
            specs.len(),
            |k: int| resolved(specs[k], k as usize, outcomes[k])->Ok_0,
        ));
    } else {
        assert(Seq::new(
            specs.len(),
            |k: int| resolved(specs[k], k as usize, outcomes[k])->Ok_0,
        ) =~= Seq::<Seq<char>>::empty());
    }
}

/// The fields fail with the error of the first field, in declaration order,
/// that does not resolve.
pub proof fn lemma_first_error_wins<E>(
    specs: Seq<FieldSpecView>,
    outcomes: Seq<OutcomeView<E>>,
    i: int,
)
    requires
        specs.len() == outcomes.len(),
        0 <= i < specs.len(),
        forall|k: int|
            0 <= k < i ==> (#[trigger] resolved(specs[k], k as usize, outcomes[k])) is Ok,
        resolved(specs[i], i as usize, outcomes[i]) is Err,
    ensures
        resolved_fields(specs, outcomes) == Err::<Seq<Seq<char>>, ConstructError<E>>(
            resolved(specs[i], i as usize, outcomes[i])->Err_0,
        ),
    decreases specs.len(),
{
    let n = specs.len() - 1;
    if i < n {
        assert forall|k: int| 0 <= k < i implies (#[trigger] resolved(
            specs.drop_last()[k],
            k as usize,
            outcomes.drop_last()[k],
        )) is Ok by {
            assert(resolved(specs[k], k as usize, outcomes[k]) is Ok);
        }
        lemma_first_error_wins(specs.drop_last(), outcomes.drop_last(), i);
    } else {
        assert forall|k: int| 0 <= k < n implies (#[trigger] resolved(
            specs.drop_last()[k],
            k as usize,
            outcomes.drop_last()[k],
        )) is Ok by {
            assert(resolved(specs[k], k as usize, outcomes[k]) is Ok);
        }
        lemma_all_fields_resolve(specs.drop_last(), outcomes.drop_last());
    }
}

/// A type without fields has a constructor, and every call of it makes the
/// one value of the type: no call fails, whatever the host answers.
pub proof fn lemma_no_fields_always_constructs<E>(
    target: TargetView,
    outcomes: Seq<OutcomeView<E>>,
)
    ensures
        constructor_for(target, FieldsView::Unit) == Ok::<ConstructorView, GenerationError>(
            ConstructorView { target, shape: ShapeKindView::NoFields },
        ),
        constructed(ConstructorView { target, shape: ShapeKindView::NoFields }, outcomes) == Ok::<
            InstanceView,
            ConstructError<E>,
        >(InstanceView { target, fields: InstanceFieldsView::Unit }),
{
}

/// Calling a constructor with one decoded value per field makes the value
/// that has exactly those values as its fields, in declaration order: a
/// tuple of them for positional fields, each under its field's name for
/// named fields.
pub proof fn lemma_supplied_values_round_trip<E>(c: ConstructorView, values: Seq<Seq<char>>)
    requires
        values.len() == c.shape.arity(),
    ensures
        constructed(c, presented::<E>(values)) == Ok::<InstanceView, ConstructError<E>>(
            InstanceView { target: c.target, fields: c.shape.filled(values) },
        ),
        c.shape is PositionalFields ==> c.shape.filled(values) == InstanceFieldsView::Tuple(values),
{
    let specs = c.shape.specs();
    let outcomes = presented::<E>(values);
    lemma_all_fields_resolve(specs, outcomes);
    assert(Seq::new(specs.len(), |k: int| resolved(specs[k], k as usize, outcomes[k])->Ok_0)
        =~= values);
}

/// Leaving out a field that has a default makes the same value, or fails
/// with the same error, as supplying the default's literal for that field.
pub proof fn lemma_default_stands_in<E>(
    c: ConstructorView,
    outcomes: Seq<OutcomeView<E>>,
    i: int,
)
    requires
        0 <= i < c.shape.arity(),
        outcomes.len() == c.shape.arity(),
        c.shape.field(i).default is Some,
    ensures
        constructed(c, outcomes.update(i, OutcomeView::Absent)) == constructed(
            c,
            outcomes.update(i, OutcomeView::Present(c.shape.field(i).default->Some_0)),
        ),
{
    lemma_default_resolves_alike(
        c.shape.specs(),
        outcomes.update(i, OutcomeView::Absent),
        outcomes.update(i, OutcomeView::Present(c.shape.field(i).default->Some_0)),
        i,
    );
}

/// Answers that differ only at a field with a default, where one leaves the
/// field out and the other supplies the default, resolve alike.
proof fn lemma_default_resolves_alike<E>(
    specs: Seq<FieldSpecView>,
    left: Seq<OutcomeView<E>>,
    right: Seq<OutcomeView<E>>,
    i: int,
)
    requires
        specs.len() == left.len(),
        specs.len() == right.len(),
        0 <= i < specs.len(),
        specs[i].default is Some,
        left[i] == OutcomeView::<E>::Absent,
        right[i] == OutcomeView::<E>::Present(specs[i].default->Some_0),
        forall|k: int| 0 <= k < specs.len() && k != i ==> left[k] == right[k],
    ensures
        resolved_fields(specs, left) == resolved_fields(specs, right),
    decreases specs.len(),
{
    let n = specs.len() - 1;
    if i < n {
        lemma_default_resolves_alike(specs.drop_last(), left.drop_last(), right.drop_last(), i);
        assert(left.last() == right.last());
    } else {
        assert(left.drop_last() =~= right.drop_last());
    }
}

/// Leaving out a field that has no default makes no value: the call fails,
/// and with [`ConstructError::Missing`] for that field where every field
/// before it resolves.
pub proof fn lemma_missing_without_default<E>(
    c: ConstructorView,
    outcomes: Seq<OutcomeView<E>>,
    i: int,
)
    requires
        0 <= i < c.shape.arity(),
        outcomes.len() == c.shape.arity(),
        c.shape.field(i).default is None,
        outcomes[i] == OutcomeView::<E>::Absent,
    ensures
        constructed(c, outcomes) is Err,
        (forall|k: int|
            0 <= k < i ==> (#[trigger] resolved(c.shape.specs()[k], k as usize, outcomes[k])) is Ok)
            ==> constructed(c, outcomes) == Err::<InstanceView, ConstructError<E>>(
            ConstructError::Missing { field: i as usize },
        ),
{
    let specs = c.shape.specs();
    assert(specs[i] == c.shape.field(i));
    assert(resolved(specs[i], i as usize, outcomes[i]) is Err);
    let first = choose_first_error(specs, outcomes, i);
    lemma_first_error_wins(specs, outcomes, first);
    if forall|k: int|
        0 <= k < i ==> (#[trigger] resolved(c.shape.specs()[k], k as usize, outcomes[k])) is Ok {
        assert(first == i);
    }
}

/// The first position, up to one that does not resolve, that does not
/// resolve.
proof fn choose_first_error<E>(
    specs: Seq<FieldSpecView>,
    outcomes: Seq<OutcomeView<E>>,
    i: int,
) -> (first: int)
    requires
        specs.len() == outcomes.len(),
        0 <= i < specs.len(),
        resolved(specs[i], i as usize, outcomes[i]) is Err,
    ensures
        0 <= first <= i,
        resolved(specs[first], first as usize, outcomes[first]) is Err,
        forall|k: int|
            0 <= k < first ==> (#[trigger] resolved(specs[k], k as usize, outcomes[k])) is Ok,
    decreases i,
{
    if exists|k: int| 0 <= k < i && (#[trigger] resolved(specs[k], k as usize, outcomes[k])) is Err {
        let k = choose|k: int|
            0 <= k < i && (#[trigger] resolved(specs[k], k as usize, outcomes[k])) is Err;
        choose_first_error(specs, outcomes, k)
    } else {
        i
    }
}

/// A call fails, once there is one answer per field, exactly where some
/// field does not resolve.
pub proof fn lemma_constructs_iff_all_resolve<E>(c: ConstructorView, outcomes: Seq<OutcomeView<E>>)
    requires
        !(c.shape is NoFields),
        outcomes.len() == c.shape.arity(),
    ensures
        constructed(c, outcomes) is Ok <==> forall|k: int|
            0 <= k < c.shape.arity() ==> (#[trigger] resolved(
                c.shape.specs()[k],
                k as usize,
                outcomes[k],
            )) is Ok,
{
    let specs = c.shape.specs();
    if forall|k: int|
        0 <= k < specs.len() ==> (#[trigger] resolved(specs[k], k as usize, outcomes[k])) is Ok {
        lemma_all_fields_resolve(specs, outcomes);
    } else {
        let i = choose|i: int|
            0 <= i < specs.len() && !((#[trigger] resolved(specs[i], i as usize, outcomes[i])) is Ok);
        let first = choose_first_error(specs, outcomes, i);
        lemma_first_error_wins(specs, outcomes, first);
    }
}

/// What a call makes depends on the constructor's target only in the target
/// of the value made: two constructors of the same shape make values with
/// the same fields, and fail with the same error.
pub proof fn lemma_fields_depend_on_shape<E>(
    a: ConstructorView,
    b: ConstructorView,
    outcomes: Seq<OutcomeView<E>>,
)
    requires
        a.shape == b.shape,
    ensures
        match constructed(a, outcomes) {
            Ok(made) => made.target == a.target && constructed(b, outcomes) == Ok::<
                InstanceView,
                ConstructError<E>,
            >(InstanceView { target: b.target, fields: made.fields }),
            Err(e) => constructed(b, outcomes) == Err::<InstanceView, ConstructError<E>>(e),
        },
{
}

/// The table derived for an enum holds one entry per variant, in order:
/// under the variant's name, the constructor that is derived for the
/// variant's fields and makes that variant.
pub proof fn lemma_entries_follow_variants(name: Seq<char>, variants: Seq<VariantView>, i: int)
    requires
        variant_entries(name, variants) is Ok,
        0 <= i < variants.len(),
    ensures
        variant_entries(name, variants)->Ok_0.len() == variants.len(),
        variant_entries(name, variants)->Ok_0[i].0 == variants[i].ident,
        constructor_for(
            TargetView::Variant { ty: name, variant: variants[i].ident },
            variants[i].fields,
        ) == Ok::<ConstructorView, GenerationError>(variant_entries(name, variants)->Ok_0[i].1),
    decreases variants.len(),
{
    lemma_entries_len(name, variants);
    lemma_entries_len(name, variants.drop_last());
    if i < variants.len() - 1 {
        lemma_entries_follow_variants(name, variants.drop_last(), i);
    }
}

/// The table derived for an enum has one entry per variant.
proof fn lemma_entries_len(name: Seq<char>, variants: Seq<VariantView>)
    requires
        variant_entries(name, variants) is Ok,
    ensures
        variant_entries(name, variants)->Ok_0.len() == variants.len(),
    decreases variants.len(),
{
    if variants.len() > 0 {
        lemma_entries_len(name, variants.drop_last());
    }
}

/// The builder derived for a well-formed definition is well formed: the
/// table of an enum holds each variant under a name of its own.
pub proof fn lemma_derived_builder_well_formed(input: DeriveInputView)
    requires
        input.data.well_formed(),
        derived_builder(input) is Ok,
    ensures
        derived_builder(input)->Ok_0.builder.well_formed(),
        derived_builder(input)->Ok_0.name == input.ident,
{
    if input.data is Enum {
        let variants = input.data->Enum_0;
        let entries = variant_entries(input.ident, variants)->Ok_0;
        lemma_entries_len(input.ident, variants);
        assert forall|a: int, b: int| 0 <= a < b < entries.len() implies (#[trigger] entries[a]).0
            != (#[trigger] entries[b]).0 by {
            lemma_entries_follow_variants(input.ident, variants, a);
            lemma_entries_follow_variants(input.ident, variants, b);
        }
        assert(distinct_names(entries));
    }
}

/// Selecting a variant of an enum by its name finds the constructor derived
/// for that variant's own fields: it makes a value of that variant, with
/// the fields that the constructor of a struct with the same fields makes,
/// and fails where that one fails.
pub proof fn lemma_variant_builds_like_struct<E>(
    name: Seq<char>,
    variants: Seq<VariantView>,
    i: int,
    outcomes: Seq<OutcomeView<E>>,
)
    requires
        distinct_idents(variants),
        variant_entries(name, variants) is Ok,
        0 <= i < variants.len(),
    ensures
        selected(variant_entries(name, variants)->Ok_0, variants[i].ident) is Some,
        constructor_for(TargetView::SelfType, variants[i].fields) is Ok,
        ({
            let variant = selected(variant_entries(name, variants)->Ok_0, variants[i].ident)->Some_0;
            let alone = constructor_for(TargetView::SelfType, variants[i].fields)->Ok_0;
            &&& variant.target == TargetView::Variant { ty: name, variant: variants[i].ident }
            &&& variant.shape == alone.shape
            &&& match constructed(alone, outcomes) {
                Ok(made) => constructed(variant, outcomes) == Ok::<InstanceView, ConstructError<E>>(
                    InstanceView { target: variant.target, fields: made.fields },
                ),
                Err(e) => constructed(variant, outcomes) == Err::<InstanceView, ConstructError<E>>(
                    e,
                ),
            }
        }),
{
    let entries = variant_entries(name, variants)->Ok_0;
    lemma_entries_follow_variants(name, variants, i);
    assert forall|k: int| 0 <= k < variants.len() implies (#[trigger] entries[k]).0
        == variants[k].ident by {
        lemma_entries_follow_variants(name, variants, k);
    }
    lemma_selected_distinct(entries, i);
    let variant = entries[i].1;
    let alone = constructor_for(TargetView::SelfType, variants[i].fields)->Ok_0;
    lemma_fields_depend_on_shape(alone, variant, outcomes);
}

/// In a table whose names are distinct, each name selects its own entry.
proof fn lemma_selected_distinct(entries: Seq<(Seq<char>, ConstructorView)>, i: int)
    requires
        0 <= i < entries.len(),
        forall|a: int, b: int|
            0 <= a < b < entries.len() ==> (#[trigger] entries[a]).0 != (#[trigger] entries[b]).0,
    ensures
        selected(entries, entries[i].0) == Some(entries[i].1),
    decreases entries.len(),
{
    if i < entries.len() - 1 {
        assert(entries[i].0 != entries.last().0);
        lemma_selected_distinct(entries.drop_last(), i);
    }
}

/// Two calls with the same answers yield the same: what a call makes is a
/// function of the constructor and the answers, and of nothing else.
pub proof fn lemma_call_twice_same_value<E>(
    c: ConstructorView,
    first: Seq<OutcomeView<E>>,
    second: Seq<OutcomeView<E>>,
)
    requires
        first =~= second,
    ensures
        constructed(c, first) == constructed(c, second),
{
}

} // verus!
