//! What holds of the two directions of conversion together, and of each on every input.

use vstd::prelude::*;
use crate::closed::{all_resolve, fields_resolve, is_closed, lemma_fields_resolve, names_resolve};
use crate::decimal::{
    is_digit, lemma_decimal_text_is_canonical, lemma_decimal_text_of_value,
    lemma_signed_text_of_value, lemma_value_of_signed_text,
};
use crate::document::{find_entry, lemma_find_entry, DocumentModel};
use crate::error::{failure, within, ErrorKindModel, ErrorModel, StepModel};
use crate::hex::{hex_bytes, lemma_hex_round_trip};
use crate::idl2json::{
    all_bytes, bytes_of, typed, typed_document, typed_field, typed_fields, typed_items, untyped,
};
use crate::json2idl::{
    byte_values, convert, convert_args, convert_arguments, convert_elements, convert_fields,
    convert_from, convert_prim, convert_strictly, first_missing, first_unexpected, is_missing,
    is_optional, is_unexpected, method_key, principal_key,
};
use crate::types::{
    find_field, find_field_by_id, find_type, label_id, label_key, lemma_find_decl,
    lemma_find_field, lemma_find_field_by_id, EnvModel, FieldModel, Prim, TypeModel,
};
use crate::typing::{
    distinct_labels, fields_have_type, has_alternative, has_type, is_alternative,
    items_have_type,
    lemma_fields_have_type, lemma_items_have_type, prim_holds, shows_null,
};
use crate::value::{FieldValueModel, ValueModel};

verus! {

/// A value is shown as the null document exactly where `shows_null` says so, by its shape and
/// by any type.
pub proof fn lemma_null_documents(
    env: EnvModel,
    ty: TypeModel,
    value: ValueModel,
    names_left: nat,
    hex: bool,
)
    ensures
        untyped(value, hex) is Null <==> shows_null(value),
        typed(env, ty, value, names_left, hex) is Null <==> shows_null(value),
    decreases value, names_left, ty,
{
    match value {
        ValueModel::Opt(held) => {
            lemma_null_documents(env, ty, *held, names_left, hex);
        },
        _ => {},
    }
    match ty {
        TypeModel::Named(name) => match find_type(env, name) {
            Some(target) => {
                if names_left > 0 {
                    lemma_null_documents(env, target, value, (names_left - 1) as nat, hex);
                }
            },
            None => {},
        },
        TypeModel::Opt(inner) => match value {
            ValueModel::Opt(held) => {
                lemma_null_documents(env, *inner, *held, names_left, hex);
            },
            _ => {},
        },
        _ => {},
    }
}

/// The documents of the first `count` items are those of each item, in order.
pub proof fn lemma_typed_items(
    env: EnvModel,
    element: TypeModel,
    items: Seq<ValueModel>,
    hex: bool,
    count: nat,
)
    requires
        count <= items.len(),
    ensures
        typed_items(env, element, items, hex, count).len() == count,
        forall|k: int|
            0 <= k < count ==> (#[trigger] typed_items(env, element, items, hex, count)[k])
                == typed(env, element, items[k], env.decls.len(), hex),
    decreases count,
{
    if count > 0 {
        lemma_typed_items(env, element, items, hex, (count - 1) as nat);
    }
}

/// The entries of the first `count` fields are those of each field, in order.
pub proof fn lemma_typed_fields(
    env: EnvModel,
    declared: Seq<FieldModel>,
    values: Seq<FieldValueModel>,
    hex: bool,
    count: nat,
)
    requires
        count <= values.len(),
    ensures
        typed_fields(env, declared, values, hex, count).len() == count,
        forall|k: int|
            0 <= k < count ==> (#[trigger] typed_fields(env, declared, values, hex, count)[k])
                == typed_field(env, declared, values[k], hex),
    decreases count,
{
    if count > 0 {
        lemma_typed_fields(env, declared, values, hex, (count - 1) as nat);
    }
}

/// Among distinct labels, a field is the first with its own wire number and the first under
/// its own key.
pub proof fn lemma_found_where_declared(fields: Seq<FieldModel>, k: int)
    requires
        distinct_labels(fields),
        0 <= k < fields.len(),
    ensures
        find_field_by_id(fields, label_id(fields[k].label), 0) == Some(k),
        find_field(fields, label_key(fields[k].label), 0) == Some(k),
{
    lemma_find_field_by_id(fields, label_id(fields[k].label), 0);
    lemma_find_field(fields, label_key(fields[k].label), 0);
}

/// An entry whose key no earlier entry has is the first under its key.
pub proof fn lemma_entry_found(entries: Seq<(Seq<char>, DocumentModel)>, k: int)
    requires
        0 <= k < entries.len(),
        forall|j: int| 0 <= j < k ==> (#[trigger] entries[j]).0 != entries[k].0,
    ensures
        find_entry(entries, entries[k].0, 0) == Some(k),
{
    lemma_find_entry(entries, entries[k].0, 0);
}

/// No field is missing from a document that has an entry under the key of each.
pub proof fn lemma_nothing_missing(
    env: EnvModel,
    fields: Seq<FieldModel>,
    entries: Seq<(Seq<char>, DocumentModel)>,
    start: int,
)
    requires
        0 <= start,
        forall|k: int|
            start <= k < fields.len() ==> find_entry(
                entries,
                label_key(#[trigger] fields[k].label),
                0,
            ) is Some,
    ensures
        first_missing(env, fields, entries, start) is None,
    decreases fields.len() - start,
{
    if start < fields.len() {
        assert(!is_missing(env, fields[start], entries));
        lemma_nothing_missing(env, fields, entries, start + 1);
    }
}

/// A value of a primitive type comes back from its document.
pub proof fn lemma_prim_round_trip(
    env: EnvModel,
    prim: Prim,
    value: ValueModel,
    names_left: nat,
    hex: bool,
    strict: bool,
)
    requires
        prim_holds(prim, value),
    ensures
        convert_from(
            env,
            TypeModel::Prim(prim),
            typed(env, TypeModel::Prim(prim), value, names_left, hex),
            names_left,
            strict,
        ) == Ok::<ValueModel, ErrorModel>(value),
{
    match value {
        ValueModel::Nat(digits) => {
            assert(is_digit(digits[0]));
            lemma_decimal_text_of_value(digits);
        },
        ValueModel::Int(digits) => {
            lemma_signed_text_of_value(digits);
            if digits[0] != '-' {
                assert(is_digit(digits[0]));
            }
        },
        _ => {},
    }
}

/// The round trip, with the count of names that may still be looked up.
pub proof fn lemma_round_trip_from(
    env: EnvModel,
    ty: TypeModel,
    value: ValueModel,
    names_left: nat,
    hex: bool,
    strict: bool,
)
    requires
        has_type(env, ty, value, names_left, true),
    ensures
        convert_from(env, ty, typed(env, ty, value, names_left, hex), names_left, strict) == Ok::<
            ValueModel,
            ErrorModel,
        >(value),
    decreases value, names_left, ty,
{
    match ty {
        TypeModel::Prim(prim) => {
            lemma_prim_round_trip(env, prim, value, names_left, hex, strict);
        },
        TypeModel::Principal => {},
        TypeModel::Service => {},
        TypeModel::Func => {
            reveal_strlit("principal");
            reveal_strlit("method");
            let doc = typed(env, ty, value, names_left, hex);
            let entries = doc->Object_0;
            assert(principal_key() != method_key()) by {
                assert(principal_key().len() != method_key().len());
            }
            assert(entries[0].0 == principal_key());
            assert(entries[1].0 == method_key());
            lemma_entry_found(entries, 0);
            lemma_entry_found(entries, 1);
        },
        TypeModel::Named(name) => {
            let target = find_type(env, name)->0;
            lemma_round_trip_from(env, target, value, (names_left - 1) as nat, hex, strict);
        },
        TypeModel::Opt(inner) => match value {
            ValueModel::Opt(held) => {
                lemma_round_trip_from(env, *inner, *held, names_left, hex, strict);
                lemma_null_documents(env, *inner, *held, names_left, hex);
            },
            _ => {},
        },
        TypeModel::Vector(element) => {
            let items = value->Vector_0;
            if hex && *element == TypeModel::Prim(Prim::Nat8) && all_bytes(items) {
                lemma_hex_round_trip(bytes_of(items));
                assert(byte_values(bytes_of(items)) =~= items);
            } else {
                lemma_round_trip_items(env, *element, items, hex, items.len(), strict);
                lemma_typed_items(env, *element, items, hex, items.len());
                assert(items.take(items.len() as int) =~= items);
            }
        },
        TypeModel::Record(fields) => {
            let values = value->Record_0;
            let entries = typed_fields(env, fields, values, hex, values.len());
            lemma_record_entries(env, fields, values, hex);
            lemma_nothing_missing(env, fields, entries, 0);
            assert forall|k: int| 0 <= k < entries.len() implies find_field(
                fields,
                (#[trigger] entries[k]).0,
                0,
            ) is Some by {
                lemma_found_where_declared(fields, k);
            }
            lemma_nothing_unexpected(fields, entries, 0);
            lemma_round_trip_fields(env, fields, values, hex, values.len(), strict);
            assert(values.take(values.len() as int) =~= values);
        },
        TypeModel::Variant(alternatives) => {
            let field = *value->Variant_0;
            assert(has_alternative(env, alternatives, field, true));
            let i = choose|i: int|
                0 <= i < alternatives.len() && is_alternative(
                    env,
                    #[trigger] alternatives[i],
                    field,
                    true,
                );
            lemma_found_where_declared(alternatives, i);
            lemma_round_trip_from(
                env,
                alternatives[i].ty,
                field.value,
                env.decls.len(),
                hex,
                strict,
            );
            let entry = typed_field(env, alternatives, field, hex);
            assert(seq![entry][0] == entry);
            assert(entry.0 == label_key(alternatives[i].label));
        },
    }
}

/// The entries of a well-typed record: one for each declared field, under its key and first
/// under that key.
pub proof fn lemma_record_entries(
    env: EnvModel,
    fields: Seq<FieldModel>,
    values: Seq<FieldValueModel>,
    hex: bool,
)
    requires
        distinct_labels(fields),
        values.len() == fields.len(),
        fields_have_type(env, fields, values, values.len(), true),
    ensures
        typed_fields(env, fields, values, hex, values.len()).len() == fields.len(),
        forall|k: int|
            0 <= k < fields.len() ==> (#[trigger] typed_fields(
                env,
                fields,
                values,
                hex,
                values.len(),
            )[k]) == (
                label_key(fields[k].label),
                typed(env, fields[k].ty, values[k].value, env.decls.len(), hex),
            ),
        forall|k: int|
            0 <= k < fields.len() ==> find_entry(
                typed_fields(env, fields, values, hex, values.len()),
                label_key(#[trigger] fields[k].label),
                0,
            ) == Some(k),
{
    let entries = typed_fields(env, fields, values, hex, values.len());
    lemma_typed_fields(env, fields, values, hex, values.len());
    lemma_fields_have_type(env, fields, values, values.len(), true);
    assert forall|k: int| 0 <= k < fields.len() implies (#[trigger] entries[k]) == (
        label_key(fields[k].label),
        typed(env, fields[k].ty, values[k].value, env.decls.len(), hex),
    ) by {
        lemma_found_where_declared(fields, k);
        assert(values[k].id == fields[k].label);
    }
    assert forall|k: int| 0 <= k < fields.len() implies find_entry(
        entries,
        label_key(#[trigger] fields[k].label),
        0,
    ) == Some(k) by {
        assert(entries[k].0 == label_key(fields[k].label));
        assert forall|j: int| 0 <= j < k implies (#[trigger] entries[j]).0 != entries[k].0 by {
            assert(entries[j].0 == label_key(fields[j].label));
        }
        lemma_entry_found(entries, k);
    }
}

/// The round trip of the first `count` items of a vector.
pub proof fn lemma_round_trip_items(
    env: EnvModel,
    element: TypeModel,
    items: Seq<ValueModel>,
    hex: bool,
    count: nat,
    strict: bool,
)
    requires
        count <= items.len(),
        items_have_type(env, element, items, items.len(), true),
    ensures
        convert_elements(
            env,
            element,
            typed_items(env, element, items, hex, items.len()),
            count,
            strict,
        ) == Ok::<Seq<ValueModel>, ErrorModel>(items.take(count as int)),
    decreases items, count,
{
    let docs = typed_items(env, element, items, hex, items.len());
    lemma_typed_items(env, element, items, hex, items.len());
    if count == 0 {
        assert(items.take(0) =~= Seq::<ValueModel>::empty());
    } else {
        lemma_round_trip_items(env, element, items, hex, (count - 1) as nat, strict);
        lemma_items_have_type(env, element, items, items.len(), true);
        lemma_round_trip_from(env, element, items[count - 1], env.decls.len(), hex, strict);
        assert(docs[count - 1] == typed(env, element, items[count - 1], env.decls.len(), hex));
        assert(items.take(count as int) =~= items.take(count - 1).push(items[count - 1]));
    }
}

/// The round trip of the first `count` fields of a record.
pub proof fn lemma_round_trip_fields(
    env: EnvModel,
    fields: Seq<FieldModel>,
    values: Seq<FieldValueModel>,
    hex: bool,
    count: nat,
    strict: bool,
)
    requires
        count <= values.len(),
        distinct_labels(fields),
        values.len() == fields.len(),
        fields_have_type(env, fields, values, values.len(), true),
    ensures
        convert_fields(
            env,
            fields,
            typed_fields(env, fields, values, hex, values.len()),
            count,
            strict,
        ) == Ok::<Seq<FieldValueModel>, ErrorModel>(values.take(count as int)),
    decreases values, count,
{
    let entries = typed_fields(env, fields, values, hex, values.len());
    lemma_record_entries(env, fields, values, hex);
    if count == 0 {
        assert(values.take(0) =~= Seq::<FieldValueModel>::empty());
    } else {
        let k = count - 1;
        lemma_round_trip_fields(env, fields, values, hex, (count - 1) as nat, strict);
        lemma_fields_have_type(env, fields, values, values.len(), true);
        lemma_round_trip_from(env, fields[k].ty, values[k].value, env.decls.len(), hex, strict);
        assert(find_entry(entries, label_key(fields[k].label), 0) == Some(k));
        assert(entries[k].1 == typed(env, fields[k].ty, values[k].value, env.decls.len(), hex));
        assert(values[k] == FieldValueModel { id: fields[k].label, value: values[k].value });
        assert(values.take(count as int) =~= values.take(count - 1).push(values[k]));
    }
}

/// Showing a value by its type and converting the document back by the same type gives the
/// value again, whatever the format of bytes and whether keys that are not declared are passed
/// over or rejected. It holds of every value that is of the type in the exact sense of
/// `has_type`, which leaves out the options that hold a value shown as null: those come back as
/// absent.
pub proof fn lemma_round_trip(env: EnvModel, ty: TypeModel, value: ValueModel, hex: bool)
    requires
        has_type(env, ty, value, env.decls.len(), true),
    ensures
        convert(env, ty, typed_document(env, ty, value, hex)) == Ok::<ValueModel, ErrorModel>(
            value,
        ),
        convert_strictly(env, ty, typed_document(env, ty, value, hex)) == Ok::<
            ValueModel,
            ErrorModel,
        >(value),
{
    lemma_round_trip_from(env, ty, value, env.decls.len(), hex, false);
    lemma_round_trip_from(env, ty, value, env.decls.len(), hex, true);
}

/// The documents of an argument list: each value shown by the type at its place.
pub open spec fn argument_documents(
    env: EnvModel,
    types: Seq<TypeModel>,
    values: Seq<ValueModel>,
    hex: bool,
) -> Seq<DocumentModel> {
    Seq::new(values.len(), |i: int| typed_document(env, types[i], values[i], hex))
}

/// The round trip of the first `count` arguments.
pub proof fn lemma_round_trip_arguments_from(
    env: EnvModel,
    types: Seq<TypeModel>,
    values: Seq<ValueModel>,
    hex: bool,
    count: nat,
)
    requires
        count <= values.len(),
        values.len() == types.len(),
        forall|i: int|
            0 <= i < values.len() ==> has_type(
                env,
                types[i],
                #[trigger] values[i],
                env.decls.len(),
                true,
            ),
    ensures
        convert_arguments(env, types, argument_documents(env, types, values, hex), count) == Ok::<
            Seq<ValueModel>,
            ErrorModel,
        >(values.take(count as int)),
    decreases count,
{
    if count == 0 {
        assert(values.take(0) =~= Seq::<ValueModel>::empty());
    } else {
        lemma_round_trip_arguments_from(env, types, values, hex, (count - 1) as nat);
        lemma_round_trip(env, types[count - 1], values[count - 1], hex);
        assert(values.take(count as int) =~= values.take(count - 1).push(values[count - 1]));
    }
}

/// Showing the values of an argument list by the types at their places and converting the
/// list of documents back by the same types gives the values again. It holds where each value
/// is of its type in the exact sense of `has_type`.
pub proof fn lemma_round_trip_arguments(
    env: EnvModel,
    types: Seq<TypeModel>,
    values: Seq<ValueModel>,
    hex: bool,
)
    requires
        values.len() == types.len(),
        forall|i: int|
            0 <= i < values.len() ==> has_type(
                env,
                types[i],
                #[trigger] values[i],
                env.decls.len(),
                true,
            ),
    ensures
        convert_args(
            env,
            types,
            DocumentModel::List(argument_documents(env, types, values, hex)),
        ) == Ok::<Seq<ValueModel>, ErrorModel>(values),
{
    lemma_round_trip_arguments_from(env, types, values, hex, values.len());
    assert(values.take(values.len() as int) =~= values);
}

/// No entry is unexpected in a document whose every key is that of a declared field.
pub proof fn lemma_nothing_unexpected(
    fields: Seq<FieldModel>,
    entries: Seq<(Seq<char>, DocumentModel)>,
    start: int,
)
    requires
        0 <= start,
        forall|k: int|
            start <= k < entries.len() ==> find_field(fields, (#[trigger] entries[k]).0, 0)
                is Some,
    ensures
        first_unexpected(fields, entries, start) is None,
    decreases entries.len() - start,
{
    if start < entries.len() {
        assert(!is_unexpected(fields, entries[start]));
        lemma_nothing_unexpected(fields, entries, start + 1);
    }
}

/// The first missing field is a missing field, and none before it is; there is none exactly
/// where no field is missing.
pub proof fn lemma_first_missing(
    env: EnvModel,
    fields: Seq<FieldModel>,
    entries: Seq<(Seq<char>, DocumentModel)>,
    start: int,
)
    requires
        0 <= start,
    ensures
        first_missing(env, fields, entries, start) matches Some(i) ==> start <= i < fields.len()
            && is_missing(env, fields[i], entries) && forall|j: int|
            start <= j < i ==> !is_missing(env, #[trigger] fields[j], entries),
        first_missing(env, fields, entries, start) is None ==> forall|j: int|
            start <= j < fields.len() ==> !is_missing(env, #[trigger] fields[j], entries),
    decreases fields.len() - start,
{
    if start < fields.len() && !is_missing(env, fields[start], entries) {
        lemma_first_missing(env, fields, entries, start + 1);
    }
}

/// A failure among the fields of a record is the failure of a part: it has a step to it.
pub proof fn lemma_field_failures_have_steps(
    env: EnvModel,
    fields: Seq<FieldModel>,
    entries: Seq<(Seq<char>, DocumentModel)>,
    count: nat,
    strict: bool,
)
    ensures
        convert_fields(env, fields, entries, count, strict) matches Err(error) ==> error.path.len()
            > 0,
    decreases count,
{
    if count > 0 && count <= fields.len() {
        lemma_field_failures_have_steps(env, fields, entries, (count - 1) as nat, strict);
    }
}

/// Converting an object by a record type fails with `MissingField`, as a failure of the object
/// itself, exactly where the object has no entry under the key of a declared field whose type
/// is not optional. The key that the failure names is that of the first such field.
pub proof fn lemma_missing_field(
    env: EnvModel,
    fields: Seq<FieldModel>,
    entries: Seq<(Seq<char>, DocumentModel)>,
    names_left: nat,
    strict: bool,
)
    ensures
        ({
            let result = convert_from(
                env,
                TypeModel::Record(fields),
                DocumentModel::Object(entries),
                names_left,
                strict,
            );
            let lacking = exists|i: int|
                0 <= i < fields.len() && is_missing(env, #[trigger] fields[i], entries);
            &&& lacking <==> (result matches Err(error) && error.kind is MissingField
                && error.path.len() == 0)
            &&& lacking ==> (first_missing(env, fields, entries, 0) matches Some(i) && result
                == Err::<ValueModel, ErrorModel>(
                failure(ErrorKindModel::MissingField(label_key(fields[i].label))),
            ))
        }),
{
    lemma_first_missing(env, fields, entries, 0);
    lemma_field_failures_have_steps(env, fields, entries, fields.len(), strict);
}

/// Converting an object of one entry by a variant type fails with `UnknownVariant`, as a
/// failure of the object itself, exactly where no declared alternative stands under the key of
/// the entry. Otherwise the first alternative under the key decides alone: the payload is
/// converted by its type, and the outcome is the variant value of that alternative, or the
/// failure of the payload.
pub proof fn lemma_variant_by_key(
    env: EnvModel,
    alternatives: Seq<FieldModel>,
    key: Seq<char>,
    payload: DocumentModel,
    names_left: nat,
    strict: bool,
)
    ensures
        ({
            let result = convert_from(
                env,
                TypeModel::Variant(alternatives),
                DocumentModel::Object(seq![(key, payload)]),
                names_left,
                strict,
            );
            let declared = exists|i: int|
                0 <= i < alternatives.len() && label_key(#[trigger] alternatives[i].label) == key;
            &&& !declared <==> (result matches Err(error) && error.kind is UnknownVariant
                && error.path.len() == 0)
            &&& !declared ==> result == Err::<ValueModel, ErrorModel>(
                failure(ErrorKindModel::UnknownVariant(key)),
            )
            &&& declared ==> (find_field(alternatives, key, 0) matches Some(i) && 0 <= i
                < alternatives.len() && label_key(alternatives[i].label) == key && result
                == match convert_from(env, alternatives[i].ty, payload, env.decls.len(), strict) {
                Ok(value) => Ok::<ValueModel, ErrorModel>(
                    ValueModel::Variant(
                        Box::new(FieldValueModel { id: alternatives[i].label, value }),
                    ),
                ),
                Err(error) => Err(within(error, StepModel::Alternative(key))),
            })
        }),
{
    lemma_find_field(alternatives, key, 0);
    let entries = seq![(key, payload)];
    assert(entries.len() == 1);
    assert(entries[0] == (key, payload));
}

/// What holds of the first `count` arguments: they convert together exactly where each of
/// them converts alone, to the values that they convert to alone; where one does not, the
/// failure is that of the first such argument.
pub proof fn lemma_arguments_one_by_one(
    env: EnvModel,
    types: Seq<TypeModel>,
    items: Seq<DocumentModel>,
    count: nat,
)
    requires
        count <= items.len(),
        count <= types.len(),
        items.len() <= usize::MAX,
    ensures
        match convert_arguments(env, types, items, count) {
            Ok(values) => values.len() == count && forall|i: int|
                0 <= i < count ==> convert(env, types[i], items[i]) == Ok::<
                    ValueModel,
                    ErrorModel,
                >(#[trigger] values[i]),
            Err(error) => exists|i: int|
                0 <= i < count && (#[trigger] convert(env, types[i], items[i]) matches Err(inner)
                    && error == within(inner, StepModel::Argument(i as usize))) && forall|j: int|
                    0 <= j < i ==> (#[trigger] convert(env, types[j], items[j])) is Ok,
        },
    decreases count,
{
    if count > 0 {
        lemma_arguments_one_by_one(env, types, items, (count - 1) as nat);
        match convert_arguments(env, types, items, (count - 1) as nat) {
            Ok(values) => {
                match convert(env, types[count - 1], items[count - 1]) {
                    Ok(value) => {
                        let all = values.push(value);
                        assert forall|i: int| 0 <= i < count implies convert(
                            env,
                            types[i],
                            items[i],
                        ) == Ok::<ValueModel, ErrorModel>(#[trigger] all[i]) by {
                            if i < count - 1 {
                                assert(all[i] == values[i]);
                            }
                        }
                    },
                    Err(inner) => {
                        let i = count - 1;
                        assert(convert(env, types[i], items[i]) is Err);
                        assert forall|j: int| 0 <= j < i implies (#[trigger] convert(
                            env,
                            types[j],
                            items[j],
                        )) is Ok by {
                            assert(convert(env, types[j], items[j]) == Ok::<
                                ValueModel,
                                ErrorModel,
                            >(values[j]));
                        }
                    },
                }
            },
            Err(error) => {},
        }
    }
}

/// An argument list converts by `types` only from a list of as many documents as there are
/// types: anything else fails with `ArityMismatch`, whatever it holds.
pub proof fn lemma_arity_mismatch(env: EnvModel, types: Seq<TypeModel>, doc: DocumentModel)
    requires
        !(doc matches DocumentModel::List(items) && items.len() == types.len()),
    ensures
        convert_args(env, types, doc) matches Err(error) && error.kind is ArityMismatch
            && error.path.len() == 0,
{
}

/// A list of as many documents as there are types gives one value for each type, and each
/// value is what the document at its place converts to by the type at its place alone: nothing
/// of it depends on the other arguments. Where an argument does not convert, the failure is
/// that of the first such argument, one step further in.
pub proof fn lemma_argument_lists(env: EnvModel, types: Seq<TypeModel>, items: Seq<DocumentModel>)
    requires
        items.len() == types.len(),
        types.len() <= usize::MAX,
    ensures
        match convert_args(env, types, DocumentModel::List(items)) {
            Ok(values) => values.len() == types.len() && forall|i: int|
                0 <= i < types.len() ==> convert(env, types[i], items[i]) == Ok::<
                    ValueModel,
                    ErrorModel,
                >(#[trigger] values[i]),
            Err(error) => exists|i: int|
                0 <= i < types.len() && (#[trigger] convert(env, types[i], items[i]) matches Err(
                    inner,
                ) && error == within(inner, StepModel::Argument(i as usize))) && forall|j: int|
                    0 <= j < i ==> (#[trigger] convert(env, types[j], items[j])) is Ok,
        },
{
    lemma_arguments_one_by_one(env, types, items, items.len());
}

/// A type whose field may be left out has the absent value.
pub proof fn lemma_optional_has_absent(env: EnvModel, ty: TypeModel, names_left: nat)
    requires
        is_optional(env, ty, names_left),
    ensures
        has_type(env, ty, ValueModel::Absent, names_left, false),
    decreases names_left,
{
    match ty {
        TypeModel::Named(name) => {
            lemma_optional_has_absent(env, find_type(env, name)->0, (names_left - 1) as nat);
        },
        _ => {},
    }
}

/// A value that a document converts to by a primitive type is a value of that type.
pub proof fn lemma_converted_prim(prim: Prim, doc: DocumentModel)
    ensures
        convert_prim(prim, doc) matches Ok(value) ==> prim_holds(prim, value),
{
    match doc {
        DocumentModel::Number(crate::document::Number::Integer(n)) => {
            if n >= 0 {
                lemma_decimal_text_is_canonical(n as nat);
            }
            lemma_value_of_signed_text(n as int);
        },
        DocumentModel::Text(text) => {
            lemma_decimal_text_is_canonical(crate::decimal::decimal_value(text));
            lemma_value_of_signed_text(crate::decimal::signed_value(text));
        },
        _ => {},
    }
}

/// A value that a document converts to is a value of the type, with the count of names that
/// may still be looked up.
pub proof fn lemma_converted_has_type_from(
    env: EnvModel,
    ty: TypeModel,
    doc: DocumentModel,
    names_left: nat,
    strict: bool,
)
    ensures
        convert_from(env, ty, doc, names_left, strict) matches Ok(value) ==> has_type(
            env,
            ty,
            value,
            names_left,
            false,
        ),
    decreases doc, names_left, ty,
{
    match ty {
        TypeModel::Prim(prim) => {
            lemma_converted_prim(prim, doc);
        },
        TypeModel::Principal => {},
        TypeModel::Service => {},
        TypeModel::Func => {},
        TypeModel::Named(name) => match find_type(env, name) {
            Some(target) => {
                if names_left > 0 {
                    lemma_converted_has_type_from(
                        env,
                        target,
                        doc,
                        (names_left - 1) as nat,
                        strict,
                    );
                }
            },
            None => {},
        },
        TypeModel::Opt(inner) => {
            if !(doc is Null) {
                lemma_converted_has_type_from(env, *inner, doc, names_left, strict);
            }
        },
        TypeModel::Vector(element) => match doc {
            DocumentModel::List(items) => {
                lemma_converted_elements(env, *element, items, items.len(), strict);
                match convert_elements(env, *element, items, items.len(), strict) {
                    Ok(values) => {
                        lemma_items_have_type(env, *element, values, values.len(), false);
                    },
                    Err(_) => {},
                }
            },
            DocumentModel::Text(text) => {
                if *element == TypeModel::Prim(Prim::Nat8) && hex_bytes(text) is Some {
                    let values = byte_values(hex_bytes(text)->0);
                    lemma_items_have_type(env, *element, values, values.len(), false);
                }
            },
            _ => {},
        },
        TypeModel::Record(fields) => match doc {
            DocumentModel::Object(entries) => {
                if first_missing(env, fields, entries, 0) is None {
                    lemma_first_missing(env, fields, entries, 0);
                    lemma_converted_fields(env, fields, entries, fields.len(), strict);
                    match convert_fields(env, fields, entries, fields.len(), strict) {
                        Ok(values) => {
                            lemma_fields_have_type(env, fields, values, values.len(), false);
                        },
                        Err(_) => {},
                    }
                }
            },
            _ => {},
        },
        TypeModel::Variant(alternatives) => match doc {
            DocumentModel::Object(entries) => {
                if entries.len() == 1 {
                    lemma_find_field(alternatives, entries[0].0, 0);
                    match find_field(alternatives, entries[0].0, 0) {
                        Some(i) => {
                            lemma_converted_has_type_from(
                                env,
                                alternatives[i].ty,
                                entries[0].1,
                                env.decls.len(),
                                strict,
                            );
                            match convert_from(
                                env,
                                alternatives[i].ty,
                                entries[0].1,
                                env.decls.len(),
                                strict,
                            ) {
                                Ok(value) => {
                                    let field = FieldValueModel {
                                        id: alternatives[i].label,
                                        value,
                                    };
                                    assert(is_alternative(env, alternatives[i], field, false));
                                    assert(has_alternative(env, alternatives, field, false));
                                },
                                Err(_) => {},
                            }
                        },
                        None => {},
                    }
                }
            },
            _ => {},
        },
    }
}

/// The values that the first `count` documents of a list convert to are of the type.
pub proof fn lemma_converted_elements(
    env: EnvModel,
    element: TypeModel,
    items: Seq<DocumentModel>,
    count: nat,
    strict: bool,
)
    requires
        count <= items.len(),
    ensures
        convert_elements(env, element, items, count, strict) matches Ok(values) ==> values.len()
            == count && forall|k: int|
            0 <= k < count ==> has_type(
                env,
                element,
                #[trigger] values[k],
                env.decls.len(),
                false,
            ),
    decreases items, count,
{
    if count > 0 {
        lemma_converted_elements(env, element, items, (count - 1) as nat, strict);
        lemma_converted_has_type_from(env, element, items[count - 1], env.decls.len(), strict);
    }
}

/// The values that the first `count` declared fields convert to are those fields, where the
/// document lacks none that it has to hold.
pub proof fn lemma_converted_fields(
    env: EnvModel,
    fields: Seq<FieldModel>,
    entries: Seq<(Seq<char>, DocumentModel)>,
    count: nat,
    strict: bool,
)
    requires
        count <= fields.len(),
        forall|k: int| 0 <= k < fields.len() ==> !is_missing(env, #[trigger] fields[k], entries),
    ensures
        convert_fields(env, fields, entries, count, strict) matches Ok(values) ==> values.len()
            == count && forall|k: int|
            0 <= k < count ==> (#[trigger] values[k]).id == fields[k].label && has_type(
                env,
                fields[k].ty,
                values[k].value,
                env.decls.len(),
                false,
            ),
    decreases entries, count,
{
    if count > 0 {
        let field = fields[count - 1];
        lemma_converted_fields(env, fields, entries, (count - 1) as nat, strict);
        lemma_find_entry(entries, label_key(field.label), 0);
        match find_entry(entries, label_key(field.label), 0) {
            Some(j) => {
                lemma_converted_has_type_from(env, field.ty, entries[j].1, env.decls.len(), strict);
            },
            None => {
                assert(!is_missing(env, field, entries));
                lemma_optional_has_absent(env, field.ty, env.decls.len());
            },
        }
    }
}

/// A value that a conversion gives is a value of the type that it was converted by, whether
/// keys that are not declared are passed over or rejected.
pub proof fn lemma_converted_has_type(env: EnvModel, ty: TypeModel, doc: DocumentModel)
    ensures
        convert(env, ty, doc) matches Ok(value) ==> has_type(
            env,
            ty,
            value,
            env.decls.len(),
            false,
        ),
        convert_strictly(env, ty, doc) matches Ok(value) ==> has_type(
            env,
            ty,
            value,
            env.decls.len(),
            false,
        ),
{
    lemma_converted_has_type_from(env, ty, doc, env.decls.len(), false);
    lemma_converted_has_type_from(env, ty, doc, env.decls.len(), true);
}

/// In a closed environment, a conversion by a type whose names are declared does not fail
/// for want of a declaration, with the count of names that may still be looked up.
pub proof fn lemma_names_are_known_from(
    env: EnvModel,
    ty: TypeModel,
    doc: DocumentModel,
    names_left: nat,
    strict: bool,
)
    requires
        is_closed(env),
        names_resolve(env, ty),
    ensures
        !(convert_from(env, ty, doc, names_left, strict) matches Err(error) && error.kind
            is UnknownType),
    decreases doc, names_left, ty,
{
    match ty {
        TypeModel::Named(name) => {
            lemma_find_decl(env.decls, name, 0);
            if names_left > 0 {
                lemma_names_are_known_from(
                    env,
                    find_type(env, name)->0,
                    doc,
                    (names_left - 1) as nat,
                    strict,
                );
            }
        },
        TypeModel::Opt(inner) => {
            if !(doc is Null) {
                lemma_names_are_known_from(env, *inner, doc, names_left, strict);
            }
        },
        TypeModel::Vector(element) => match doc {
            DocumentModel::List(items) => {
                lemma_elements_are_known(env, *element, items, items.len(), strict);
            },
            _ => {},
        },
        TypeModel::Record(fields) => match doc {
            DocumentModel::Object(entries) => {
                lemma_fields_are_known(env, fields, entries, fields.len(), strict);
            },
            _ => {},
        },
        TypeModel::Variant(alternatives) => match doc {
            DocumentModel::Object(entries) => {
                if entries.len() == 1 {
                    lemma_find_field(alternatives, entries[0].0, 0);
                    lemma_fields_resolve(env, alternatives, alternatives.len());
                    match find_field(alternatives, entries[0].0, 0) {
                        Some(i) => {
                            lemma_names_are_known_from(
                                env,
                                alternatives[i].ty,
                                entries[0].1,
                                env.decls.len(),
                                strict,
                            );
                        },
                        None => {},
                    }
                }
            },
            _ => {},
        },
        _ => {},
    }
}

/// In a closed environment, the elements of a list do not fail for want of a declaration.
pub proof fn lemma_elements_are_known(
    env: EnvModel,
    element: TypeModel,
    items: Seq<DocumentModel>,
    count: nat,
    strict: bool,
)
    requires
        is_closed(env),
        names_resolve(env, element),
        count <= items.len(),
    ensures
        !(convert_elements(env, element, items, count, strict) matches Err(error) && error.kind
            is UnknownType),
    decreases items, count,
{
    if count > 0 {
        lemma_elements_are_known(env, element, items, (count - 1) as nat, strict);
        lemma_names_are_known_from(env, element, items[count - 1], env.decls.len(), strict);
    }
}

/// In a closed environment, the fields of a record do not fail for want of a declaration.
pub proof fn lemma_fields_are_known(
    env: EnvModel,
    fields: Seq<FieldModel>,
    entries: Seq<(Seq<char>, DocumentModel)>,
    count: nat,
    strict: bool,
)
    requires
        is_closed(env),
        fields_resolve(env, fields, fields.len()),
        count <= fields.len(),
    ensures
        !(convert_fields(env, fields, entries, count, strict) matches Err(error) && error.kind
            is UnknownType),
    decreases entries, count,
{
    if count > 0 {
        let field = fields[count - 1];
        lemma_fields_are_known(env, fields, entries, (count - 1) as nat, strict);
        lemma_fields_resolve(env, fields, fields.len());
        lemma_find_entry(entries, label_key(field.label), 0);
        match find_entry(entries, label_key(field.label), 0) {
            Some(j) => {
                lemma_names_are_known_from(env, field.ty, entries[j].1, env.decls.len(), strict);
            },
            None => {},
        }
    }
}

/// In a closed environment, the first `count` arguments do not fail for want of a
/// declaration.
pub proof fn lemma_arguments_are_known(
    env: EnvModel,
    types: Seq<TypeModel>,
    items: Seq<DocumentModel>,
    count: nat,
)
    requires
        is_closed(env),
        all_resolve(env, types),
        count <= items.len(),
        count <= types.len(),
    ensures
        !(convert_arguments(env, types, items, count) matches Err(error) && error.kind
            is UnknownType),
    decreases count,
{
    if count > 0 {
        lemma_arguments_are_known(env, types, items, (count - 1) as nat);
        lemma_names_are_known_from(
            env,
            types[count - 1],
            items[count - 1],
            env.decls.len(),
            false,
        );
    }
}

/// In a closed environment, a conversion by types whose names are declared never fails with
/// `UnknownType`, neither as a whole nor in a part: not of one document, and not of an
/// argument list.
pub proof fn lemma_names_are_known(
    env: EnvModel,
    ty: TypeModel,
    types: Seq<TypeModel>,
    doc: DocumentModel,
)
    requires
        is_closed(env),
    ensures
        names_resolve(env, ty) ==> !(convert(env, ty, doc) matches Err(error) && error.kind
            is UnknownType),
        names_resolve(env, ty) ==> !(convert_strictly(env, ty, doc) matches Err(error)
            && error.kind is UnknownType),
        all_resolve(env, types) ==> !(convert_args(env, types, doc) matches Err(error)
            && error.kind is UnknownType),
{
    if names_resolve(env, ty) {
        lemma_names_are_known_from(env, ty, doc, env.decls.len(), false);
        lemma_names_are_known_from(env, ty, doc, env.decls.len(), true);
    }
    if all_resolve(env, types) {
        match doc {
            DocumentModel::List(items) => {
                if items.len() == types.len() {
                    lemma_arguments_are_known(env, types, items, items.len());
                }
            },
            _ => {},
        }
    }
}

} // verus!
