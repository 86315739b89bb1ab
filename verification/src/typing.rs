//! Which values are of which type.

use vstd::prelude::*;
use crate::decimal::{
    is_canonical_int, is_canonical_int_text, is_canonical_nat, is_canonical_nat_text,
};
use crate::principal::{is_principal_text, principal_text_is_valid};
use crate::types::{
    fields_view, find_type, label_id, label_key, lemma_fields_view, EnvModel, Field, FieldModel,
    Label, Prim, Type, TypeEnv, TypeModel,
};
use crate::value::{
    field_values_view, lemma_field_values_view, lemma_values_view, values_view, FieldValue,
    FieldValueModel, TypedValue, ValueModel,
};

verus! {

/// Whether no two of the fields share a key or a wire number.
pub open spec fn distinct_labels(fields: Seq<FieldModel>) -> bool {
    forall|i: int, j: int|
        0 <= i < j < fields.len() ==> label_key(#[trigger] fields[i].label) != label_key(
            #[trigger] fields[j].label,
        ) && label_id(fields[i].label) != label_id(fields[j].label)
}

/// Whether a value is shown as null: null, reserved and an absent option are, and so is an
/// option that holds such a value.
pub open spec fn shows_null(value: ValueModel) -> bool
    decreases value,
{
    match value {
        ValueModel::Null => true,
        ValueModel::Reserved => true,
        ValueModel::Absent => true,
        ValueModel::Opt(held) => shows_null(*held),
        _ => false,
    }
}

/// Whether `value` is a value of the primitive type `prim`, with its digits in canonical form.
pub open spec fn prim_holds(prim: Prim, value: ValueModel) -> bool {
    match prim {
        Prim::Null => value is Null,
        Prim::Bool => value is Bool,
        Prim::Nat => value matches ValueModel::Nat(digits) && is_canonical_nat(digits),
        Prim::Int => value matches ValueModel::Int(digits) && is_canonical_int(digits),
        Prim::Nat8 => value is Nat8,
        Prim::Nat16 => value is Nat16,
        Prim::Nat32 => value is Nat32,
        Prim::Nat64 => value is Nat64,
        Prim::Int8 => value is Int8,
        Prim::Int16 => value is Int16,
        Prim::Int32 => value is Int32,
        Prim::Int64 => value is Int64,
        Prim::Float32 => value is Float32,
        Prim::Float64 => value is Float64,
        Prim::Text => value is Text,
        Prim::Reserved => value is Reserved,
        Prim::Empty => false,
    }
}

/// Whether `value` is a value of the type `ty`.
///
/// A reference holds the text of a principal. An option is absent or holds a value of the inner
/// type. A record value has the declared fields, each under its declared label and in the
/// declared order; a variant value has one of the declared alternatives. `names_left` bounds the
/// names that are looked up before something of the value is used up, as it does in a
/// conversion.
///
/// With `exact`, the value is moreover one that a document holds without loss: the labels that
/// a record or variant type declares are distinct, and no option holds a value that is itself
/// shown as null, since a document has one null only.
pub open spec fn has_type(
    env: EnvModel,
    ty: TypeModel,
    value: ValueModel,
    names_left: nat,
    exact: bool,
) -> bool
    decreases value, names_left, ty,
{
    match ty {
        TypeModel::Prim(prim) => prim_holds(prim, value),
        TypeModel::Principal => value matches ValueModel::Principal(text) && is_principal_text(
            text,
        ),
        TypeModel::Service => value matches ValueModel::Service(text) && is_principal_text(text),
        TypeModel::Func => value matches ValueModel::Func(principal, _) && is_principal_text(
            principal,
        ),
        TypeModel::Named(name) => match find_type(env, name) {
            Some(target) => names_left > 0 && has_type(
                env,
                target,
                value,
                (names_left - 1) as nat,
                exact,
            ),
            None => false,
        },
        TypeModel::Opt(inner) => match value {
            ValueModel::Absent => true,
            ValueModel::Opt(held) => has_type(env, *inner, *held, names_left, exact) && (exact
                ==> !shows_null(*held)),
            _ => false,
        },
        TypeModel::Vector(element) => match value {
            ValueModel::Vector(items) => items_have_type(
                env,
                *element,
                items,
                items.len(),
                exact,
            ),
            _ => false,
        },
        TypeModel::Record(fields) => match value {
            ValueModel::Record(values) => (exact ==> distinct_labels(fields)) && values.len()
                == fields.len() && fields_have_type(env, fields, values, values.len(), exact),
            _ => false,
        },
        TypeModel::Variant(alternatives) => match value {
            ValueModel::Variant(field) => (exact ==> distinct_labels(alternatives))
                && has_alternative(env, alternatives, *field, exact),
            _ => false,
        },
    }
}

/// Whether `field` is one of the alternatives with a payload of its type.
pub open spec fn has_alternative(
    env: EnvModel,
    alternatives: Seq<FieldModel>,
    field: FieldValueModel,
    exact: bool,
) -> bool
    decreases field, 1nat,
{
    exists|i: int|
        0 <= i < alternatives.len() && is_alternative(
            env,
            #[trigger] alternatives[i],
            field,
            exact,
        )
}

/// Whether `field` is the alternative `declared` with a payload of its type.
pub open spec fn is_alternative(
    env: EnvModel,
    declared: FieldModel,
    field: FieldValueModel,
    exact: bool,
) -> bool
    decreases field, 0nat,
{
    declared.label == field.id && has_type(env, declared.ty, field.value, env.decls.len(), exact)
}

/// Whether the first `count` of `items` are of the type `element`.
pub open spec fn items_have_type(
    env: EnvModel,
    element: TypeModel,
    items: Seq<ValueModel>,
    count: nat,
    exact: bool,
) -> bool
    decreases items, count,
{
    if count == 0 || count > items.len() {
        true
    } else {
        items_have_type(env, element, items, (count - 1) as nat, exact) && has_type(
            env,
            element,
            items[count - 1],
            env.decls.len(),
            exact,
        )
    }
}

/// Whether the first `count` of `values` are the first `count` declared fields, each under its
/// declared label and of its declared type.
pub open spec fn fields_have_type(
    env: EnvModel,
    fields: Seq<FieldModel>,
    values: Seq<FieldValueModel>,
    count: nat,
    exact: bool,
) -> bool
    decreases values, count,
{
    if count == 0 || count > values.len() || count > fields.len() {
        true
    } else {
        fields_have_type(env, fields, values, (count - 1) as nat, exact) && values[count - 1].id
            == fields[count - 1].label && has_type(
            env,
            fields[count - 1].ty,
            values[count - 1].value,
            env.decls.len(),
            exact,
        )
    }
}

/// The first `count` items are of a type exactly where each of them is.
pub proof fn lemma_items_have_type(
    env: EnvModel,
    element: TypeModel,
    items: Seq<ValueModel>,
    count: nat,
    exact: bool,
)
    requires
        count <= items.len(),
    ensures
        items_have_type(env, element, items, count, exact) <==> forall|k: int|
            0 <= k < count ==> has_type(env, element, #[trigger] items[k], env.decls.len(), exact),
    decreases count,
{
    if count > 0 {
        lemma_items_have_type(env, element, items, (count - 1) as nat, exact);
    }
}

/// The first `count` values are the first `count` declared fields exactly where each of them
/// is the field at its place.
pub proof fn lemma_fields_have_type(
    env: EnvModel,
    fields: Seq<FieldModel>,
    values: Seq<FieldValueModel>,
    count: nat,
    exact: bool,
)
    requires
        count <= values.len(),
        count <= fields.len(),
    ensures
        fields_have_type(env, fields, values, count, exact) <==> forall|k: int|
            0 <= k < count ==> (#[trigger] values[k]).id == fields[k].label && has_type(
                env,
                fields[k].ty,
                values[k].value,
                env.decls.len(),
                exact,
            ),
    decreases count,
{
    if count > 0 {
        lemma_fields_have_type(env, fields, values, (count - 1) as nat, exact);
    }
}

/// Whether two labels are the same label.
pub fn same_label(a: &Label, b: &Label) -> (same: bool)
    ensures
        same == (a@ == b@),
{
    match (a, b) {
        (Label::Named(x), Label::Named(y)) => *x == *y,
        (Label::Id(x), Label::Id(y)) => *x == *y,
        _ => false,
    }
}

/// Whether no two of the fields share a key or a wire number.
pub fn has_distinct_labels(fields: &Vec<Field>) -> (distinct: bool)
    ensures
        distinct == distinct_labels(fields_view(fields@)),
{
    let ghost models = fields_view(fields@);
    proof {
        lemma_fields_view(fields@);
    }
    let mut j: usize = 0;
    while j < fields.len()
        invariant
            j <= fields.len(),
            models == fields_view(fields@),
            models.len() == fields.len(),
            forall|k: int| 0 <= k < fields.len() ==> (#[trigger] models[k]) == fields[k]@,
            forall|a: int, b: int|
                0 <= a < b < j ==> label_key(#[trigger] models[a].label) != label_key(
                    #[trigger] models[b].label,
                ) && label_id(models[a].label) != label_id(models[b].label),
        decreases fields.len() - j,
    {
        let key = fields[j].label.key();
        let id = fields[j].label.id();
        let mut i: usize = 0;
        while i < j
            invariant
                i <= j < fields.len(),
                models == fields_view(fields@),
                models.len() == fields.len(),
                forall|k: int| 0 <= k < fields.len() ==> (#[trigger] models[k]) == fields[k]@,
                key@ == label_key(models[j as int].label),
                id == label_id(models[j as int].label),
                forall|a: int|
                    0 <= a < i ==> label_key(#[trigger] models[a].label) != key@ && label_id(
                        models[a].label,
                    ) != id,
            decreases j - i,
        {
            if fields[i].label.key() == key || fields[i].label.id() == id {
                assert(!(label_key(models[i as int].label) != label_key(models[j as int].label)
                    && label_id(models[i as int].label) != label_id(models[j as int].label)));
                return false;
            }
            i = i + 1;
        }
        j = j + 1;
    }
    true
}

/// Whether a value is shown as null.
pub fn is_shown_as_null(value: &TypedValue) -> (null: bool)
    ensures
        null == shows_null(value@),
    decreases value,
{
    match value {
        TypedValue::Null => true,
        TypedValue::Reserved => true,
        TypedValue::Absent => true,
        TypedValue::Opt(held) => is_shown_as_null(held),
        _ => false,
    }
}

/// Whether `value` is a value of the primitive type `prim`, with its digits in canonical form.
pub fn is_prim_value(prim: Prim, value: &TypedValue) -> (holds: bool)
    ensures
        holds == prim_holds(prim, value@),
{
    match (prim, value) {
        (Prim::Null, TypedValue::Null) => true,
        (Prim::Bool, TypedValue::Bool(_)) => true,
        (Prim::Nat, TypedValue::Nat(digits)) => is_canonical_nat_text(digits.as_str()),
        (Prim::Int, TypedValue::Int(digits)) => is_canonical_int_text(digits.as_str()),
        (Prim::Nat8, TypedValue::Nat8(_)) => true,
        (Prim::Nat16, TypedValue::Nat16(_)) => true,
        (Prim::Nat32, TypedValue::Nat32(_)) => true,
        (Prim::Nat64, TypedValue::Nat64(_)) => true,
        (Prim::Int8, TypedValue::Int8(_)) => true,
        (Prim::Int16, TypedValue::Int16(_)) => true,
        (Prim::Int32, TypedValue::Int32(_)) => true,
        (Prim::Int64, TypedValue::Int64(_)) => true,
        (Prim::Float32, TypedValue::Float32(_)) => true,
        (Prim::Float64, TypedValue::Float64(_)) => true,
        (Prim::Text, TypedValue::Text(_)) => true,
        (Prim::Reserved, TypedValue::Reserved) => true,
        _ => false,
    }
}

/// Whether `value` is a value of the type `ty`, and with `exact` one that a document holds
/// without loss.
pub fn value_has_type(
    env: &TypeEnv,
    ty: &Type,
    value: &TypedValue,
    names_left: usize,
    exact: bool,
) -> (holds: bool)
    ensures
        holds == has_type(env@, ty@, value@, names_left as nat, exact),
    decreases value, names_left, ty,
{
    match ty {
        Type::Prim(prim) => is_prim_value(*prim, value),
        Type::Principal => match value {
            TypedValue::Principal(text) => principal_text_is_valid(text.as_str()),
            _ => false,
        },
        Type::Service => match value {
            TypedValue::Service(text) => principal_text_is_valid(text.as_str()),
            _ => false,
        },
        Type::Func => match value {
            TypedValue::Func(principal, _) => principal_text_is_valid(principal.as_str()),
            _ => false,
        },
        Type::Named(name) => match env.lookup(name) {
            Some(target) => names_left > 0 && value_has_type(
                env,
                target,
                value,
                names_left - 1,
                exact,
            ),
            None => false,
        },
        Type::Opt(inner) => match value {
            TypedValue::Absent => true,
            TypedValue::Opt(held) => value_has_type(env, inner, held, names_left, exact) && (!exact
                || !is_shown_as_null(held)),
            _ => false,
        },
        Type::Vector(element) => match value {
            TypedValue::Vector(items) => {
                proof {
                    lemma_values_view(items@);
                }
                items_are_of_type(env, element, items, exact)
            },
            _ => false,
        },
        Type::Record(fields) => match value {
            TypedValue::Record(values) => {
                proof {
                    lemma_fields_view(fields@);
                    lemma_field_values_view(values@);
                }
                (!exact || has_distinct_labels(fields)) && values.len() == fields.len()
                    && fields_are_of_type(env, fields, values, exact)
            },
            _ => false,
        },
        Type::Variant(alternatives) => match value {
            TypedValue::Variant(field) => (!exact || has_distinct_labels(alternatives))
                && is_one_of(env, alternatives, field, exact),
            _ => false,
        },
    }
}

fn items_are_of_type(
    env: &TypeEnv,
    element: &Type,
    items: &Vec<TypedValue>,
    exact: bool,
) -> (holds: bool)
    ensures
        holds == items_have_type(
            env@,
            element@,
            values_view(items@),
            items.len() as nat,
            exact,
        ),
    decreases items,
{
    let ghost models = values_view(items@);
    proof {
        lemma_values_view(items@);
    }
    let mut i: usize = 0;
    while i < items.len()
        invariant
            i <= items.len(),
            models == values_view(items@),
            models.len() == items.len(),
            forall|k: int| 0 <= k < items.len() ==> (#[trigger] models[k]) == items[k]@,
            items_have_type(env@, element@, models, i as nat, exact),
        decreases items.len() - i,
    {
        if !value_has_type(env, element, &items[i], env.decls.len(), exact) {
            proof {
                lemma_items_have_type(env@, element@, models, items.len() as nat, exact);
                assert(!has_type(env@, element@, models[i as int], env@.decls.len(), exact));
            }
            return false;
        }
        i = i + 1;
    }
    true
}

fn fields_are_of_type(
    env: &TypeEnv,
    fields: &Vec<Field>,
    values: &Vec<FieldValue>,
    exact: bool,
) -> (holds: bool)
    requires
        values.len() == fields.len(),
    ensures
        holds == fields_have_type(
            env@,
            fields_view(fields@),
            field_values_view(values@),
            values.len() as nat,
            exact,
        ),
    decreases values,
{
    let ghost declared = fields_view(fields@);
    let ghost models = field_values_view(values@);
    proof {
        lemma_fields_view(fields@);
        lemma_field_values_view(values@);
    }
    let mut i: usize = 0;
    while i < values.len()
        invariant
            i <= values.len(),
            values.len() == fields.len(),
            declared == fields_view(fields@),
            models == field_values_view(values@),
            declared.len() == fields.len(),
            models.len() == values.len(),
            forall|k: int| 0 <= k < fields.len() ==> (#[trigger] declared[k]) == fields[k]@,
            forall|k: int| 0 <= k < values.len() ==> (#[trigger] models[k]) == values[k]@,
            fields_have_type(env@, declared, models, i as nat, exact),
        decreases values.len() - i,
    {
        if !same_label(&values[i].id, &fields[i].label) || !value_has_type(
            env,
            &fields[i].ty,
            &values[i].value,
            env.decls.len(),
            exact,
        ) {
            proof {
                lemma_fields_have_type(env@, declared, models, values.len() as nat, exact);
                assert(!(models[i as int].id == declared[i as int].label && has_type(
                    env@,
                    declared[i as int].ty,
                    models[i as int].value,
                    env@.decls.len(),
                    exact,
                )));
            }
            return false;
        }
        i = i + 1;
    }
    true
}

fn is_one_of(
    env: &TypeEnv,
    alternatives: &Vec<Field>,
    field: &FieldValue,
    exact: bool,
) -> (holds: bool)
    ensures
        holds == has_alternative(env@, fields_view(alternatives@), field@, exact),
    decreases field, 0nat,
{
    let ghost declared = fields_view(alternatives@);
    proof {
        lemma_fields_view(alternatives@);
    }
    let mut i: usize = 0;
    while i < alternatives.len()
        invariant
            i <= alternatives.len(),
            declared == fields_view(alternatives@),
            declared.len() == alternatives.len(),
            forall|k: int|
                0 <= k < alternatives.len() ==> (#[trigger] declared[k]) == alternatives[k]@,
            forall|k: int|
                0 <= k < i ==> !is_alternative(env@, #[trigger] declared[k], field@, exact),
        decreases alternatives.len() - i,
    {
        if same_label(&alternatives[i].label, &field.id) && value_has_type(
            env,
            &alternatives[i].ty,
            &field.value,
            env.decls.len(),
            exact,
        ) {
            assert(is_alternative(env@, declared[i as int], field@, exact));
            return true;
        }
        i = i + 1;
    }
    false
}

} // verus!
