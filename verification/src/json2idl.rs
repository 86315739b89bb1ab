//! From a document to a typed value, by the type.

use vstd::prelude::*;
use crate::decimal::{
    canonical_int, canonical_nat, chars_of, decimal_string, decimal_text, decimal_value,
    is_decimal, is_signed_decimal, signed_decimal_string, signed_text, signed_value,
};
use crate::document::{
    documents_view, entries_view, entry_index, find_entry, lemma_documents_view,
    lemma_entries_view, Document, DocumentModel, Number,
};
use crate::error::{
    failure, within, ConversionError, ErrorKind, ErrorKindModel, ErrorModel, Step, StepModel,
};
use crate::hex::{hex_bytes, parse_hex};
use crate::principal::{is_principal_text, principal_text_is_valid};
use crate::types::{
    field_index, fields_view, find_field, find_type, label_key, lemma_fields_view, types_view,
    EnvModel, Field, FieldModel, Prim, Type, TypeEnv, TypeModel,
};
use crate::value::{
    field_values_view, lemma_field_values_view_push, lemma_values_view_push, values_view,
    FieldValue, FieldValueModel, TypedValue, ValueModel,
};

verus! {

/// Whether a field of type `ty` may be left out of a document: whether `ty` is an option type,
/// or a name that leads to one within `names_left` lookups.
pub open spec fn is_optional(env: EnvModel, ty: TypeModel, names_left: nat) -> bool
    decreases names_left,
{
    match ty {
        TypeModel::Opt(_) => true,
        TypeModel::Named(name) => match find_type(env, name) {
            Some(target) => names_left > 0 && is_optional(env, target, (names_left - 1) as nat),
            None => false,
        },
        _ => false,
    }
}

/// The value of the integer `n` in the numeric primitive type `prim`.
pub open spec fn convert_integer(prim: Prim, n: int) -> Result<ValueModel, ErrorModel> {
    match prim {
        Prim::Nat => if n >= 0 {
            Ok(ValueModel::Nat(decimal_text(n as nat)))
        } else {
            Err(failure(ErrorKindModel::OutOfRange))
        },
        Prim::Int => Ok(ValueModel::Int(signed_text(n))),
        Prim::Nat8 => if u8::MIN <= n <= u8::MAX {
            Ok(ValueModel::Nat8(n as u8))
        } else {
            Err(failure(ErrorKindModel::OutOfRange))
        },
        Prim::Nat16 => if u16::MIN <= n <= u16::MAX {
            Ok(ValueModel::Nat16(n as u16))
        } else {
            Err(failure(ErrorKindModel::OutOfRange))
        },
        Prim::Nat32 => if u32::MIN <= n <= u32::MAX {
            Ok(ValueModel::Nat32(n as u32))
        } else {
            Err(failure(ErrorKindModel::OutOfRange))
        },
        Prim::Nat64 => if u64::MIN <= n <= u64::MAX {
            Ok(ValueModel::Nat64(n as u64))
        } else {
            Err(failure(ErrorKindModel::OutOfRange))
        },
        Prim::Int8 => if i8::MIN <= n <= i8::MAX {
            Ok(ValueModel::Int8(n as i8))
        } else {
            Err(failure(ErrorKindModel::OutOfRange))
        },
        Prim::Int16 => if i16::MIN <= n <= i16::MAX {
            Ok(ValueModel::Int16(n as i16))
        } else {
            Err(failure(ErrorKindModel::OutOfRange))
        },
        Prim::Int32 => if i32::MIN <= n <= i32::MAX {
            Ok(ValueModel::Int32(n as i32))
        } else {
            Err(failure(ErrorKindModel::OutOfRange))
        },
        Prim::Int64 => if i64::MIN <= n <= i64::MAX {
            Ok(ValueModel::Int64(n as i64))
        } else {
            Err(failure(ErrorKindModel::OutOfRange))
        },
        _ => Err(failure(ErrorKindModel::TypeMismatch)),
    }
}

/// The value of `doc` in the primitive type `prim`.
///
/// An integer type takes an integer number, and `nat` and `int` take decimal text as well, which
/// holds digits that a number would lose. A floating-point type takes any number and keeps it
/// as it is. `reserved` takes anything, `empty` nothing.
pub open spec fn convert_prim(prim: Prim, doc: DocumentModel) -> Result<ValueModel, ErrorModel> {
    match prim {
        Prim::Reserved => Ok(ValueModel::Reserved),
        Prim::Empty => Err(failure(ErrorKindModel::TypeMismatch)),
        Prim::Null => match doc {
            DocumentModel::Null => Ok(ValueModel::Null),
            _ => Err(failure(ErrorKindModel::TypeMismatch)),
        },
        Prim::Bool => match doc {
            DocumentModel::Bool(b) => Ok(ValueModel::Bool(b)),
            _ => Err(failure(ErrorKindModel::TypeMismatch)),
        },
        Prim::Text => match doc {
            DocumentModel::Text(s) => Ok(ValueModel::Text(s)),
            _ => Err(failure(ErrorKindModel::TypeMismatch)),
        },
        Prim::Float32 => match doc {
            DocumentModel::Number(n) => Ok(ValueModel::Float32(n)),
            _ => Err(failure(ErrorKindModel::TypeMismatch)),
        },
        Prim::Float64 => match doc {
            DocumentModel::Number(n) => Ok(ValueModel::Float64(n)),
            _ => Err(failure(ErrorKindModel::TypeMismatch)),
        },
        Prim::Nat => match doc {
            DocumentModel::Number(Number::Integer(n)) => convert_integer(prim, n as int),
            DocumentModel::Text(s) => if is_decimal(s) {
                Ok(ValueModel::Nat(decimal_text(decimal_value(s))))
            } else {
                Err(failure(ErrorKindModel::TypeMismatch))
            },
            _ => Err(failure(ErrorKindModel::TypeMismatch)),
        },
        Prim::Int => match doc {
            DocumentModel::Number(Number::Integer(n)) => convert_integer(prim, n as int),
            DocumentModel::Text(s) => if is_signed_decimal(s) {
                Ok(ValueModel::Int(signed_text(signed_value(s))))
            } else {
                Err(failure(ErrorKindModel::TypeMismatch))
            },
            _ => Err(failure(ErrorKindModel::TypeMismatch)),
        },
        _ => match doc {
            DocumentModel::Number(Number::Integer(n)) => convert_integer(prim, n as int),
            _ => Err(failure(ErrorKindModel::TypeMismatch)),
        },
    }
}

/// The key of a function reference's principal.
pub open spec fn principal_key() -> Seq<char> {
    "principal"@
}

/// The key of a function reference's method.
pub open spec fn method_key() -> Seq<char> {
    "method"@
}

/// A reference to a principal, where `valid` says that `text` is the text of one.
pub open spec fn principal_reference(text: Seq<char>, valid: bool) -> Result<
    ValueModel,
    ErrorModel,
> {
    if valid {
        Ok(ValueModel::Principal(text))
    } else {
        Err(failure(ErrorKindModel::TypeMismatch))
    }
}

/// A reference to a service, where `valid` says that `text` is the text of a principal.
pub open spec fn service_reference(text: Seq<char>, valid: bool) -> Result<ValueModel, ErrorModel> {
    if valid {
        Ok(ValueModel::Service(text))
    } else {
        Err(failure(ErrorKindModel::TypeMismatch))
    }
}

/// A reference to a method of a service, where `valid` says that `principal` is the text of a
/// principal.
pub open spec fn func_reference(principal: Seq<char>, method: Seq<char>, valid: bool) -> Result<
    ValueModel,
    ErrorModel,
> {
    if valid {
        Ok(ValueModel::Func(principal, method))
    } else {
        Err(failure(ErrorKindModel::TypeMismatch))
    }
}

/// A reference to a principal or to a service: the text of a principal.
pub open spec fn convert_principal(doc: DocumentModel, service: bool) -> Result<
    ValueModel,
    ErrorModel,
> {
    match doc {
        DocumentModel::Text(text) => if service {
            service_reference(text, is_principal_text(text))
        } else {
            principal_reference(text, is_principal_text(text))
        },
        _ => Err(failure(ErrorKindModel::TypeMismatch)),
    }
}

/// A reference to a function: an object that gives the principal and the method as text.
pub open spec fn convert_func(doc: DocumentModel) -> Result<ValueModel, ErrorModel> {
    match doc {
        DocumentModel::Object(entries) => match (
            find_entry(entries, principal_key(), 0),
            find_entry(entries, method_key(), 0),
        ) {
            (Some(i), Some(j)) => match (entries[i].1, entries[j].1) {
                (DocumentModel::Text(principal), DocumentModel::Text(method)) => func_reference(
                    principal,
                    method,
                    is_principal_text(principal),
                ),
                _ => Err(failure(ErrorKindModel::TypeMismatch)),
            },
            _ => Err(failure(ErrorKindModel::TypeMismatch)),
        },
        _ => Err(failure(ErrorKindModel::TypeMismatch)),
    }
}

/// The bytes as a vector of `nat8` values.
pub open spec fn byte_values(bytes: Seq<u8>) -> Seq<ValueModel> {
    bytes.map_values(|b: u8| ValueModel::Nat8(b))
}

/// Whether the document lacks a field that it has to hold.
pub open spec fn is_missing(
    env: EnvModel,
    field: FieldModel,
    entries: Seq<(Seq<char>, DocumentModel)>,
) -> bool {
    find_entry(entries, label_key(field.label), 0) is None && !is_optional(
        env,
        field.ty,
        env.decls.len(),
    )
}

/// The place of the first declared field at or after `start` that the document lacks and has
/// to hold.
pub open spec fn first_missing(
    env: EnvModel,
    fields: Seq<FieldModel>,
    entries: Seq<(Seq<char>, DocumentModel)>,
    start: int,
) -> Option<int>
    decreases fields.len() - start,
{
    if start < 0 || start >= fields.len() {
        None
    } else if is_missing(env, fields[start], entries) {
        Some(start)
    } else {
        first_missing(env, fields, entries, start + 1)
    }
}

/// Whether the entry stands under a key that no declared field has.
pub open spec fn is_unexpected(fields: Seq<FieldModel>, entry: (Seq<char>, DocumentModel)) -> bool {
    find_field(fields, entry.0, 0) is None
}

/// The place of the first entry at or after `start` under a key that no declared field has.
pub open spec fn first_unexpected(
    fields: Seq<FieldModel>,
    entries: Seq<(Seq<char>, DocumentModel)>,
    start: int,
) -> Option<int>
    decreases entries.len() - start,
{
    if start < 0 || start >= entries.len() {
        None
    } else if is_unexpected(fields, entries[start]) {
        Some(start)
    } else {
        first_unexpected(fields, entries, start + 1)
    }
}

/// The value of `doc` in the type `ty`, or why it has none.
///
/// An object may hold keys that its record type does not declare: they are passed over, unless
/// `strict` asks to reject them.
///
/// `names_left` is the number of names that may still be looked up before something of the
/// document has to be used up. It starts at the number of declarations, so a name that fails for
/// want of it leads back to itself.
pub open spec fn convert_from(
    env: EnvModel,
    ty: TypeModel,
    doc: DocumentModel,
    names_left: nat,
    strict: bool,
) -> Result<ValueModel, ErrorModel>
    decreases doc, names_left, ty,
{
    match ty {
        TypeModel::Prim(prim) => convert_prim(prim, doc),
        TypeModel::Principal => convert_principal(doc, false),
        TypeModel::Service => convert_principal(doc, true),
        TypeModel::Func => convert_func(doc),
        TypeModel::Named(name) => match find_type(env, name) {
            None => Err(failure(ErrorKindModel::UnknownType(name))),
            Some(target) => if names_left == 0 {
                Err(failure(ErrorKindModel::CyclicType(name)))
            } else {
                convert_from(env, target, doc, (names_left - 1) as nat, strict)
            },
        },
        TypeModel::Opt(inner) => match doc {
            DocumentModel::Null => Ok(ValueModel::Absent),
            _ => match convert_from(env, *inner, doc, names_left, strict) {
                Ok(value) => Ok(ValueModel::Opt(Box::new(value))),
                Err(error) => Err(error),
            },
        },
        TypeModel::Vector(element) => match doc {
            DocumentModel::List(items) => match convert_elements(
                env,
                *element,
                items,
                items.len(),
                strict,
            ) {
                Ok(values) => Ok(ValueModel::Vector(values)),
                Err(error) => Err(error),
            },
            DocumentModel::Text(s) => if *element == TypeModel::Prim(Prim::Nat8) {
                match hex_bytes(s) {
                    Some(bytes) => Ok(ValueModel::Vector(byte_values(bytes))),
                    None => Err(failure(ErrorKindModel::TypeMismatch)),
                }
            } else {
                Err(failure(ErrorKindModel::TypeMismatch))
            },
            _ => Err(failure(ErrorKindModel::TypeMismatch)),
        },
        TypeModel::Record(fields) => match doc {
            DocumentModel::Object(entries) => match first_missing(env, fields, entries, 0) {
                Some(i) => Err(failure(ErrorKindModel::MissingField(label_key(fields[i].label)))),
                None => if strict && first_unexpected(fields, entries, 0) is Some {
                    Err(
                        failure(
                            ErrorKindModel::UnexpectedField(
                                entries[first_unexpected(fields, entries, 0)->0].0,
                            ),
                        ),
                    )
                } else {
                    match convert_fields(env, fields, entries, fields.len(), strict) {
                        Ok(values) => Ok(ValueModel::Record(values)),
                        Err(error) => Err(error),
                    }
                },
            },
            _ => Err(failure(ErrorKindModel::TypeMismatch)),
        },
        TypeModel::Variant(alternatives) => match doc {
            DocumentModel::Object(entries) => if entries.len() != 1 {
                Err(failure(ErrorKindModel::TypeMismatch))
            } else {
                match find_field(alternatives, entries[0].0, 0) {
                    None => Err(failure(ErrorKindModel::UnknownVariant(entries[0].0))),
                    Some(i) => match convert_from(
                        env,
                        alternatives[i].ty,
                        entries[0].1,
                        env.decls.len(),
                        strict,
                    ) {
                        Ok(value) => Ok(
                            ValueModel::Variant(
                                Box::new(FieldValueModel { id: alternatives[i].label, value }),
                            ),
                        ),
                        Err(error) => Err(within(error, StepModel::Alternative(entries[0].0))),
                    },
                }
            },
            _ => Err(failure(ErrorKindModel::TypeMismatch)),
        },
    }
}

/// The values of the first `count` of `items` in the type `element`, or the failure of the
/// first of them that has none.
pub open spec fn convert_elements(
    env: EnvModel,
    element: TypeModel,
    items: Seq<DocumentModel>,
    count: nat,
    strict: bool,
) -> Result<Seq<ValueModel>, ErrorModel>
    decreases items, count,
{
    if count == 0 || count > items.len() {
        Ok(Seq::empty())
    } else {
        match convert_elements(env, element, items, (count - 1) as nat, strict) {
            Err(error) => Err(error),
            Ok(values) => match convert_from(
                env,
                element,
                items[count - 1],
                env.decls.len(),
                strict,
            ) {
                Ok(value) => Ok(values.push(value)),
                Err(error) => Err(within(error, StepModel::Element((count - 1) as usize))),
            },
        }
    }
}

/// The values of the first `count` declared fields, each from the first entry under its key,
/// or the failure of the first of them that has none. A field without an entry is absent.
pub open spec fn convert_fields(
    env: EnvModel,
    fields: Seq<FieldModel>,
    entries: Seq<(Seq<char>, DocumentModel)>,
    count: nat,
    strict: bool,
) -> Result<Seq<FieldValueModel>, ErrorModel>
    decreases entries, count,
{
    if count == 0 || count > fields.len() {
        Ok(Seq::empty())
    } else {
        match convert_fields(env, fields, entries, (count - 1) as nat, strict) {
            Err(error) => Err(error),
            Ok(values) => {
                let field = fields[count - 1];
                let key = label_key(field.label);
                match find_entry(entries, key, 0) {
                    Some(j) => if 0 <= j < entries.len() {
                        match convert_from(env, field.ty, entries[j].1, env.decls.len(), strict) {
                            Ok(value) => Ok(
                                values.push(FieldValueModel { id: field.label, value }),
                            ),
                            Err(error) => Err(within(error, StepModel::Field(key))),
                        }
                    } else {
                        Ok(values)
                    },
                    None => Ok(
                        values.push(FieldValueModel { id: field.label, value: ValueModel::Absent }),
                    ),
                }
            },
        }
    }
}

/// The value of `doc` in the type `ty` under the declarations of `env`, or why it has none.
pub open spec fn convert(env: EnvModel, ty: TypeModel, doc: DocumentModel) -> Result<
    ValueModel,
    ErrorModel,
> {
    convert_from(env, ty, doc, env.decls.len(), false)
}

/// The value of `doc` in the type `ty` where an object may hold no key that its record type
/// does not declare.
pub open spec fn convert_strictly(env: EnvModel, ty: TypeModel, doc: DocumentModel) -> Result<
    ValueModel,
    ErrorModel,
> {
    convert_from(env, ty, doc, env.decls.len(), true)
}

/// The values of the first `count` of `items`, each in the type at its own place.
pub open spec fn convert_arguments(
    env: EnvModel,
    types: Seq<TypeModel>,
    items: Seq<DocumentModel>,
    count: nat,
) -> Result<Seq<ValueModel>, ErrorModel>
    decreases count,
{
    if count == 0 || count > items.len() || count > types.len() {
        Ok(Seq::empty())
    } else {
        match convert_arguments(env, types, items, (count - 1) as nat) {
            Err(error) => Err(error),
            Ok(values) => match convert(env, types[count - 1], items[count - 1]) {
                Ok(value) => Ok(values.push(value)),
                Err(error) => Err(within(error, StepModel::Argument((count - 1) as usize))),
            },
        }
    }
}

/// The values of an argument list: `doc` has to be a list of as many documents as there are
/// `types`, and each is converted in the type at its place.
pub open spec fn convert_args(env: EnvModel, types: Seq<TypeModel>, doc: DocumentModel) -> Result<
    Seq<ValueModel>,
    ErrorModel,
> {
    match doc {
        DocumentModel::List(items) => if items.len() == types.len() {
            convert_arguments(env, types, items, items.len())
        } else {
            Err(
                failure(
                    ErrorKindModel::ArityMismatch {
                        expected: types.len() as usize,
                        found: Some(items.len() as usize),
                    },
                ),
            )
        },
        _ => Err(
            failure(ErrorKindModel::ArityMismatch { expected: types.len() as usize, found: None }),
        ),
    }
}

/// What a conversion gave, by the view of the value or of the failure.
pub open spec fn outcome(result: Result<TypedValue, ConversionError>) -> Result<
    ValueModel,
    ErrorModel,
> {
    match result {
        Ok(value) => Ok(value@),
        Err(error) => Err(error@),
    }
}

/// What the conversion of a list gave, by the views of the values or of the failure.
pub open spec fn outcomes(result: Result<Vec<TypedValue>, ConversionError>) -> Result<
    Seq<ValueModel>,
    ErrorModel,
> {
    match result {
        Ok(values) => Ok(values_view(values@)),
        Err(error) => Err(error@),
    }
}

/// Once an element has failed, the failure is that of every longer run of elements.
pub proof fn lemma_elements_failure_stays(
    env: EnvModel,
    element: TypeModel,
    items: Seq<DocumentModel>,
    count: nat,
    longer: nat,
    strict: bool,
)
    requires
        count <= longer <= items.len(),
        convert_elements(env, element, items, count, strict) is Err,
    ensures
        convert_elements(env, element, items, longer, strict) == convert_elements(
            env,
            element,
            items,
            count,
            strict,
        ),
    decreases longer - count,
{
    if count < longer {
        lemma_elements_failure_stays(env, element, items, count, (longer - 1) as nat, strict);
    }
}

/// Once a field has failed, the failure is that of every longer run of fields.
pub proof fn lemma_fields_failure_stays(
    env: EnvModel,
    fields: Seq<FieldModel>,
    entries: Seq<(Seq<char>, DocumentModel)>,
    count: nat,
    longer: nat,
    strict: bool,
)
    requires
        count <= longer <= fields.len(),
        convert_fields(env, fields, entries, count, strict) is Err,
    ensures
        convert_fields(env, fields, entries, longer, strict) == convert_fields(
            env,
            fields,
            entries,
            count,
            strict,
        ),
    decreases longer - count,
{
    if count < longer {
        lemma_fields_failure_stays(env, fields, entries, count, (longer - 1) as nat, strict);
    }
}

/// Once an argument has failed, the failure is that of every longer run of arguments.
pub proof fn lemma_arguments_failure_stays(
    env: EnvModel,
    types: Seq<TypeModel>,
    items: Seq<DocumentModel>,
    count: nat,
    longer: nat,
)
    requires
        count <= longer <= items.len(),
        longer <= types.len(),
        convert_arguments(env, types, items, count) is Err,
    ensures
        convert_arguments(env, types, items, longer) == convert_arguments(
            env,
            types,
            items,
            count,
        ),
    decreases longer - count,
{
    if count < longer {
        lemma_arguments_failure_stays(env, types, items, count, (longer - 1) as nat);
    }
}

fn mismatch() -> (result: Result<TypedValue, ConversionError>)
    ensures
        outcome(result) == Err::<ValueModel, ErrorModel>(failure(ErrorKindModel::TypeMismatch)),
{
    Err(ConversionError::new(ErrorKind::TypeMismatch))
}

fn out_of_range() -> (result: Result<TypedValue, ConversionError>)
    ensures
        outcome(result) == Err::<ValueModel, ErrorModel>(failure(ErrorKindModel::OutOfRange)),
{
    Err(ConversionError::new(ErrorKind::OutOfRange))
}

/// Converts an integer number to a value of the numeric primitive type `prim`.
pub fn integer_value(prim: Prim, n: i128) -> (result: Result<TypedValue, ConversionError>)
    ensures
        outcome(result) == convert_integer(prim, n as int),
{
    match prim {
        Prim::Nat => if n >= 0 {
            Ok(TypedValue::Nat(decimal_string(n as u128)))
        } else {
            out_of_range()
        },
        Prim::Int => Ok(TypedValue::Int(signed_decimal_string(n))),
        Prim::Nat8 => if 0 <= n && n <= 0xff {
            Ok(TypedValue::Nat8(n as u8))
        } else {
            out_of_range()
        },
        Prim::Nat16 => if 0 <= n && n <= 0xffff {
            Ok(TypedValue::Nat16(n as u16))
        } else {
            out_of_range()
        },
        Prim::Nat32 => if 0 <= n && n <= 0xffff_ffff {
            Ok(TypedValue::Nat32(n as u32))
        } else {
            out_of_range()
        },
        Prim::Nat64 => if 0 <= n && n <= 0xffff_ffff_ffff_ffff {
            Ok(TypedValue::Nat64(n as u64))
        } else {
            out_of_range()
        },
        Prim::Int8 => if -0x80 <= n && n <= 0x7f {
            Ok(TypedValue::Int8(n as i8))
        } else {
            out_of_range()
        },
        Prim::Int16 => if -0x8000 <= n && n <= 0x7fff {
            Ok(TypedValue::Int16(n as i16))
        } else {
            out_of_range()
        },
        Prim::Int32 => if -0x8000_0000 <= n && n <= 0x7fff_ffff {
            Ok(TypedValue::Int32(n as i32))
        } else {
            out_of_range()
        },
        Prim::Int64 => if -0x8000_0000_0000_0000 <= n && n <= 0x7fff_ffff_ffff_ffff {
            Ok(TypedValue::Int64(n as i64))
        } else {
            out_of_range()
        },
        _ => mismatch(),
    }
}

/// Converts a document to a value of the primitive type `prim`.
pub fn prim_value(prim: Prim, doc: &Document) -> (result: Result<TypedValue, ConversionError>)
    ensures
        outcome(result) == convert_prim(prim, doc@),
{
    match prim {
        Prim::Reserved => Ok(TypedValue::Reserved),
        Prim::Empty => mismatch(),
        Prim::Null => match doc {
            Document::Null => Ok(TypedValue::Null),
            _ => mismatch(),
        },
        Prim::Bool => match doc {
            Document::Bool(b) => Ok(TypedValue::Bool(*b)),
            _ => mismatch(),
        },
        Prim::Text => match doc {
            Document::Text(s) => Ok(TypedValue::Text(s.clone())),
            _ => mismatch(),
        },
        Prim::Float32 => match doc {
            Document::Number(n) => Ok(TypedValue::Float32(*n)),
            _ => mismatch(),
        },
        Prim::Float64 => match doc {
            Document::Number(n) => Ok(TypedValue::Float64(*n)),
            _ => mismatch(),
        },
        Prim::Nat => match doc {
            Document::Number(Number::Integer(n)) => integer_value(prim, *n),
            Document::Text(s) => match canonical_nat(s.as_str()) {
                Some(digits) => Ok(TypedValue::Nat(digits)),
                None => mismatch(),
            },
            _ => mismatch(),
        },
        Prim::Int => match doc {
            Document::Number(Number::Integer(n)) => integer_value(prim, *n),
            Document::Text(s) => match canonical_int(s.as_str()) {
                Some(digits) => Ok(TypedValue::Int(digits)),
                None => mismatch(),
            },
            _ => mismatch(),
        },
        _ => match doc {
            Document::Number(Number::Integer(n)) => integer_value(prim, *n),
            _ => mismatch(),
        },
    }
}

/// The reference to a principal that `text` is, where `valid` says that it is the text of
/// one.
pub fn principal_value(text: &String, valid: bool) -> (result: Result<TypedValue, ConversionError>)
    ensures
        outcome(result) == principal_reference(text@, valid),
{
    if valid {
        Ok(TypedValue::Principal(text.clone()))
    } else {
        mismatch()
    }
}

/// The reference to a service that `text` is, where `valid` says that it is the text of a
/// principal.
pub fn service_value(text: &String, valid: bool) -> (result: Result<TypedValue, ConversionError>)
    ensures
        outcome(result) == service_reference(text@, valid),
{
    if valid {
        Ok(TypedValue::Service(text.clone()))
    } else {
        mismatch()
    }
}

/// The reference to the method `method` of the service `principal`, where `valid` says that
/// `principal` is the text of a principal.
pub fn method_value(principal: &String, method: &String, valid: bool) -> (result: Result<
    TypedValue,
    ConversionError,
>)
    ensures
        outcome(result) == func_reference(principal@, method@, valid),
{
    if valid {
        Ok(TypedValue::Func(principal.clone(), method.clone()))
    } else {
        mismatch()
    }
}

/// Converts a document to a reference to a principal, or to a service where `service` says
/// so.
pub fn reference_value(doc: &Document, service: bool) -> (result: Result<
    TypedValue,
    ConversionError,
>)
    ensures
        outcome(result) == convert_principal(doc@, service),
{
    match doc {
        Document::Text(text) => {
            let valid = principal_text_is_valid(text.as_str());
            if service {
                service_value(text, valid)
            } else {
                principal_value(text, valid)
            }
        },
        _ => mismatch(),
    }
}

/// Converts a document to a reference to a function.
pub fn func_value(doc: &Document) -> (result: Result<TypedValue, ConversionError>)
    ensures
        outcome(result) == convert_func(doc@),
{
    match doc {
        Document::Object(entries) => {
            proof {
                lemma_entries_view(entries@);
            }
            let principal = entry_index(entries, &"principal".to_owned());
            let method = entry_index(entries, &"method".to_owned());
            match (principal, method) {
                (Some(i), Some(j)) => match (&entries[i].1, &entries[j].1) {
                    (Document::Text(p), Document::Text(m)) => method_value(
                        p,
                        m,
                        principal_text_is_valid(p.as_str()),
                    ),
                    _ => mismatch(),
                },
                _ => mismatch(),
            }
        },
        _ => mismatch(),
    }
}

/// Whether a field of type `ty` may be left out of a document.
pub fn is_optional_type(env: &TypeEnv, ty: &Type, names_left: usize) -> (optional: bool)
    ensures
        optional == is_optional(env@, ty@, names_left as nat),
    decreases names_left,
{
    match ty {
        Type::Opt(_) => true,
        Type::Named(name) => match env.lookup(name) {
            Some(target) => names_left > 0 && is_optional_type(env, target, names_left - 1),
            None => false,
        },
        _ => false,
    }
}

fn is_nat8(ty: &Type) -> (yes: bool)
    ensures
        yes == (ty@ == TypeModel::Prim(Prim::Nat8)),
{
    match ty {
        Type::Prim(Prim::Nat8) => true,
        _ => false,
    }
}

fn bytes_to_values(bytes: &Vec<u8>) -> (values: Vec<TypedValue>)
    ensures
        values_view(values@) == byte_values(bytes@),
{
    let mut values: Vec<TypedValue> = Vec::new();
    let mut i: usize = 0;
    while i < bytes.len()
        invariant
            i <= bytes.len(),
            values_view(values@) == byte_values(bytes@.take(i as int)),
        decreases bytes.len() - i,
    {
        let value = TypedValue::Nat8(bytes[i]);
        proof {
            lemma_values_view_push(values@, value);
            assert(byte_values(bytes@.take(i + 1)) =~= byte_values(bytes@.take(i as int)).push(
                value@,
            ));
        }
        values.push(value);
        i = i + 1;
    }
    assert(bytes@.take(i as int) =~= bytes@);
    values
}

/// Converts `doc` to a value of the type `ty`, with `names_left` names still to be looked up
/// before something of the document has to be used up. With `strict` an object is rejected
/// where it holds a key that its record type does not declare.
pub fn convert_with_budget(
    env: &TypeEnv,
    ty: &Type,
    doc: &Document,
    names_left: usize,
    strict: bool,
) -> (result: Result<TypedValue, ConversionError>)
    ensures
        outcome(result) == convert_from(env@, ty@, doc@, names_left as nat, strict),
    decreases doc, names_left, ty,
{
    match ty {
        Type::Prim(prim) => prim_value(*prim, doc),
        Type::Principal => reference_value(doc, false),
        Type::Service => reference_value(doc, true),
        Type::Func => func_value(doc),
        Type::Named(name) => match env.lookup(name) {
            None => Err(ConversionError::new(ErrorKind::UnknownType(name.clone()))),
            Some(target) => if names_left == 0 {
                Err(ConversionError::new(ErrorKind::CyclicType(name.clone())))
            } else {
                convert_with_budget(env, target, doc, names_left - 1, strict)
            },
        },
        Type::Opt(inner) => match doc {
            Document::Null => Ok(TypedValue::Absent),
            _ => match convert_with_budget(env, inner, doc, names_left, strict) {
                Ok(value) => Ok(TypedValue::Opt(Box::new(value))),
                Err(error) => Err(error),
            },
        },
        Type::Vector(element) => match doc {
            Document::List(items) => {
                proof {
                    lemma_documents_view(items@);
                }
                match convert_list(env, element, items, strict) {
                    Ok(values) => Ok(TypedValue::Vector(values)),
                    Err(error) => Err(error),
                }
            },
            Document::Text(s) => if is_nat8(element) {
                let chars = chars_of(s.as_str());
                match parse_hex(&chars) {
                    Some(bytes) => Ok(TypedValue::Vector(bytes_to_values(&bytes))),
                    None => mismatch(),
                }
            } else {
                mismatch()
            },
            _ => mismatch(),
        },
        Type::Record(fields) => match doc {
            Document::Object(entries) => {
                proof {
                    lemma_fields_view(fields@);
                }
                match convert_record(env, fields, entries, strict) {
                    Ok(values) => Ok(TypedValue::Record(values)),
                    Err(error) => Err(error),
                }
            },
            _ => mismatch(),
        },
        Type::Variant(alternatives) => match doc {
            Document::Object(entries) => {
                proof {
                    lemma_entries_view(entries@);
                    lemma_fields_view(alternatives@);
                }
                if entries.len() != 1 {
                    mismatch()
                } else {
                    let key = &entries[0].0;
                    match field_index(alternatives, key) {
                        None => Err(ConversionError::new(ErrorKind::UnknownVariant(key.clone()))),
                        Some(i) => match convert_with_budget(
                            env,
                            &alternatives[i].ty,
                            &entries[0].1,
                            env.decls.len(),
                            strict,
                        ) {
                            Ok(value) => Ok(
                                TypedValue::Variant(
                                    Box::new(
                                        FieldValue { id: alternatives[i].label.clone(), value },
                                    ),
                                ),
                            ),
                            Err(error) => Err(error.within(Step::Alternative(key.clone()))),
                        },
                    }
                }
            },
            _ => mismatch(),
        },
    }
}

/// Converts the documents of a list, each to a value of the type `element`.
pub fn convert_list(
    env: &TypeEnv,
    element: &Type,
    items: &Vec<Document>,
    strict: bool,
) -> (result: Result<Vec<TypedValue>, ConversionError>)
    ensures
        outcomes(result) == convert_elements(
            env@,
            element@,
            documents_view(items@),
            items.len() as nat,
            strict,
        ),
    decreases items,
{
    let ghost docs = documents_view(items@);
    proof {
        lemma_documents_view(items@);
    }
    let mut values: Vec<TypedValue> = Vec::new();
    let mut i: usize = 0;
    while i < items.len()
        invariant
            i <= items.len(),
            docs == documents_view(items@),
            docs.len() == items.len(),
            forall|k: int| 0 <= k < items.len() ==> (#[trigger] docs[k]) == items[k]@,
            convert_elements(env@, element@, docs, i as nat, strict) == Ok::<
                Seq<ValueModel>,
                ErrorModel,
            >(values_view(values@)),
        decreases items.len() - i,
    {
        match convert_with_budget(env, element, &items[i], env.decls.len(), strict) {
            Ok(value) => {
                proof {
                    lemma_values_view_push(values@, value);
                }
                values.push(value);
            },
            Err(error) => {
                proof {
                    assert(convert_elements(env@, element@, docs, (i + 1) as nat, strict) is Err);
                    lemma_elements_failure_stays(
                        env@,
                        element@,
                        docs,
                        (i + 1) as nat,
                        items.len() as nat,
                        strict,
                    );
                }
                return Err(error.within(Step::Element(i)));
            },
        }
        i = i + 1;
    }
    Ok(values)
}

/// Converts the entries of an object to the fields of a record: first it sees that no field is
/// missing, and with `strict` that no key is unexpected, then it converts each declared field
/// from the first entry under its key.
pub fn convert_record(
    env: &TypeEnv,
    fields: &Vec<Field>,
    entries: &Vec<(String, Document)>,
    strict: bool,
) -> (result: Result<Vec<FieldValue>, ConversionError>)
    ensures
        match first_missing(env@, fields_view(fields@), entries_view(entries@), 0) {
            Some(i) => result matches Err(error) && error@ == failure(
                ErrorKindModel::MissingField(label_key(fields_view(fields@)[i].label)),
            ),
            None => if strict && first_unexpected(fields_view(fields@), entries_view(entries@), 0)
                is Some {
                result matches Err(error) && error@ == failure(
                    ErrorKindModel::UnexpectedField(
                        entries_view(entries@)[first_unexpected(
                            fields_view(fields@),
                            entries_view(entries@),
                            0,
                        )->0].0,
                    ),
                )
            } else {
                match result {
                    Ok(values) => convert_fields(
                        env@,
                        fields_view(fields@),
                        entries_view(entries@),
                        fields.len() as nat,
                        strict,
                    ) == Ok::<Seq<FieldValueModel>, ErrorModel>(field_values_view(values@)),
                    Err(error) => convert_fields(
                        env@,
                        fields_view(fields@),
                        entries_view(entries@),
                        fields.len() as nat,
                        strict,
                    ) == Err::<Seq<FieldValueModel>, ErrorModel>(error@),
                }
            },
        },
    decreases entries,
{
    let ghost decls = fields_view(fields@);
    let ghost objs = entries_view(entries@);
    proof {
        lemma_fields_view(fields@);
        lemma_entries_view(entries@);
    }
    let mut i: usize = 0;
    while i < fields.len()
        invariant
            i <= fields.len(),
            decls == fields_view(fields@),
            objs == entries_view(entries@),
            decls.len() == fields.len(),
            forall|k: int| 0 <= k < fields.len() ==> (#[trigger] decls[k]) == fields[k]@,
            first_missing(env@, decls, objs, 0) == first_missing(env@, decls, objs, i as int),
        decreases fields.len() - i,
    {
        let key = fields[i].label.key();
        if entry_index(entries, &key).is_none() && !is_optional_type(
            env,
            &fields[i].ty,
            env.decls.len(),
        ) {
            return Err(ConversionError::new(ErrorKind::MissingField(key)));
        }
        i = i + 1;
    }
    if strict {
        let mut j: usize = 0;
        while j < entries.len()
            invariant
                strict,
                j <= entries.len(),
                decls == fields_view(fields@),
                objs == entries_view(entries@),
                objs.len() == entries.len(),
                forall|k: int|
                    0 <= k < entries.len() ==> (#[trigger] objs[k]) == (
                        entries[k].0@,
                        entries[k].1@,
                    ),
                first_missing(env@, decls, objs, 0) is None,
                first_unexpected(decls, objs, 0) == first_unexpected(decls, objs, j as int),
            decreases entries.len() - j,
        {
            if field_index(fields, &entries[j].0).is_none() {
                return Err(
                    ConversionError::new(ErrorKind::UnexpectedField(entries[j].0.clone())),
                );
            }
            j = j + 1;
        }
    }
    let mut values: Vec<FieldValue> = Vec::new();
    let mut i: usize = 0;
    while i < fields.len()
        invariant
            i <= fields.len(),
            decls == fields_view(fields@),
            objs == entries_view(entries@),
            decls.len() == fields.len(),
            objs.len() == entries.len(),
            strict ==> first_unexpected(decls, objs, 0) is None,
            forall|k: int| 0 <= k < fields.len() ==> (#[trigger] decls[k]) == fields[k]@,
            forall|k: int|
                0 <= k < entries.len() ==> (#[trigger] objs[k]) == (entries[k].0@, entries[k].1@),
            first_missing(env@, decls, objs, 0) is None,
            convert_fields(env@, decls, objs, i as nat, strict) == Ok::<
                Seq<FieldValueModel>,
                ErrorModel,
            >(field_values_view(values@)),
        decreases fields.len() - i,
    {
        let key = fields[i].label.key();
        let value = match entry_index(entries, &key) {
            Some(j) => match convert_with_budget(
                env,
                &fields[i].ty,
                &entries[j].1,
                env.decls.len(),
                strict,
            ) {
                Ok(value) => value,
                Err(error) => {
                    proof {
                        assert(convert_fields(env@, decls, objs, (i + 1) as nat, strict) is Err);
                        lemma_fields_failure_stays(
                            env@,
                            decls,
                            objs,
                            (i + 1) as nat,
                            fields.len() as nat,
                            strict,
                        );
                    }
                    return Err(error.within(Step::Field(key)));
                },
            },
            None => TypedValue::Absent,
        };
        let field = FieldValue { id: fields[i].label.clone(), value };
        proof {
            lemma_field_values_view_push(values@, field);
        }
        values.push(field);
        i = i + 1;
    }
    Ok(values)
}

/// Converts one document to one value of the type `idl_type`.
pub fn json2idl_with_type(env: &TypeEnv, idl_type: &Type, doc: &Document) -> (result: Result<
    TypedValue,
    ConversionError,
>)
    ensures
        outcome(result) == convert(env@, idl_type@, doc@),
{
    convert_with_budget(env, idl_type, doc, env.decls.len(), false)
}

/// Converts one document to one value of the type `idl_type`, and rejects an object that
/// holds a key that its record type does not declare.
pub fn json2idl_with_type_strictly(env: &TypeEnv, idl_type: &Type, doc: &Document) -> (result:
    Result<TypedValue, ConversionError>)
    ensures
        outcome(result) == convert_strictly(env@, idl_type@, doc@),
{
    convert_with_budget(env, idl_type, doc, env.decls.len(), true)
}

/// Converts one document to one value of the type that `env` declares under `name`.
pub fn json2idl_with_type_name(env: &TypeEnv, name: &str, doc: &Document) -> (result: Result<
    TypedValue,
    ConversionError,
>)
    ensures
        outcome(result) == convert(env@, TypeModel::Named(name@), doc@),
{
    let named = Type::Named(name.to_owned());
    convert_with_budget(env, &named, doc, env.decls.len(), false)
}

/// Converts a list of documents to an argument list: one value for each of `idl_types`, from
/// the document at the same place.
pub fn json_args2idl_with_types(env: &TypeEnv, idl_types: &Vec<Type>, doc: &Document) -> (result:
    Result<Vec<TypedValue>, ConversionError>)
    ensures
        outcomes(result) == convert_args(env@, types_view(idl_types@), doc@),
{
    let ghost types = types_view(idl_types@);
    match doc {
        Document::List(items) => {
            let ghost docs = documents_view(items@);
            proof {
                lemma_documents_view(items@);
            }
            if items.len() != idl_types.len() {
                return Err(
                    ConversionError::new(
                        ErrorKind::ArityMismatch {
                            expected: idl_types.len(),
                            found: Some(items.len()),
                        },
                    ),
                );
            }
            let mut values: Vec<TypedValue> = Vec::new();
            let mut i: usize = 0;
            while i < items.len()
                invariant
                    i <= items.len(),
                    items.len() == idl_types.len(),
                    doc@ == DocumentModel::List(docs),
                    types == types_view(idl_types@),
                    docs == documents_view(items@),
                    docs.len() == items.len(),
                    forall|k: int| 0 <= k < items.len() ==> (#[trigger] docs[k]) == items[k]@,
                    convert_arguments(env@, types, docs, i as nat) == Ok::<
                        Seq<ValueModel>,
                        ErrorModel,
                    >(values_view(values@)),
                decreases items.len() - i,
            {
                match json2idl_with_type(env, &idl_types[i], &items[i]) {
                    Ok(value) => {
                        proof {
                            lemma_values_view_push(values@, value);
                        }
                        values.push(value);
                    },
                    Err(error) => {
                        proof {
                            assert(convert_arguments(env@, types, docs, (i + 1) as nat) is Err);
                            lemma_arguments_failure_stays(
                                env@,
                                types,
                                docs,
                                (i + 1) as nat,
                                items.len() as nat,
                            );
                        }
                        return Err(error.within(Step::Argument(i)));
                    },
                }
                i = i + 1;
            }
            Ok(values)
        },
        _ => Err(
            ConversionError::new(
                ErrorKind::ArityMismatch { expected: idl_types.len(), found: None },
            ),
        ),
    }
}

} // verus!
