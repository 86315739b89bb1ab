//! From a typed value to a document: by the value's own shape, or by a type where one is known.

use vstd::prelude::*;
use crate::decimal::{
    is_canonical_int, is_safe_integer, safe_integer_of, signed_decimal_string, signed_text,
    signed_value, MAX_SAFE_INTEGER,
};
use crate::document::{
    documents_view, entries_view, lemma_documents_view_push, lemma_entries_view_push, Document,
    DocumentModel, Number,
};
use crate::hex::{hex_string, hex_text};
use crate::json2idl::{method_key, principal_key};
use crate::types::{
    field_index_by_id, fields_view, find_field_by_id, find_type, label_id, label_key,
    lemma_fields_view, types_view, EnvModel, Field, FieldModel, Prim, Type, TypeEnv, TypeModel,
};
use crate::value::{
    field_values_view, lemma_field_values_view, lemma_values_view, values_view, FieldValue,
    FieldValueModel, TypedValue, ValueModel,
};

verus! {

/// How a vector of bytes is shown.
#[derive(Clone, Copy, Debug, PartialEq, Eq, Structural)]
pub enum BytesFormat {
    /// As a list of numbers.
    Numbers,
    /// As hexadecimal text.
    Hex,
}

/// How values are shown: the declarations that named types refer to, the format of bytes, and
/// whether the text that is printed in the end is compact.
#[derive(Debug, PartialEq, Eq)]
pub struct Idl2JsonOptions {
    /// The declarations that named types refer to.
    pub prog: TypeEnv,
    /// How bytes are shown: as numbers where nothing is said.
    pub bytes_as: Option<BytesFormat>,
    /// Whether the text that is printed in the end is compact.
    pub compact: bool,
}

impl Idl2JsonOptions {
    /// Whether bytes are shown as hexadecimal text.
    pub open spec fn hex(&self) -> bool {
        self.bytes_as == Some(BytesFormat::Hex)
    }

    /// Whether bytes are shown as hexadecimal text.
    pub fn shows_hex(&self) -> (hex: bool)
        ensures
            hex == self.hex(),
    {
        match self.bytes_as {
            Some(BytesFormat::Hex) => true,
            _ => false,
        }
    }
}

impl Default for Idl2JsonOptions {
    fn default() -> (options: Idl2JsonOptions)
        ensures
            options.prog@.decls.len() == 0,
            options.prog@.service is None,
            options.bytes_as is None,
            !options.compact,
    {
        Idl2JsonOptions { prog: TypeEnv::new(), bytes_as: None, compact: false }
    }
}

/// An integer as a document: a number where every reader holds it exactly, its decimal text
/// where not.
pub open spec fn integer_document(n: int) -> DocumentModel {
    if is_safe_integer(n) {
        DocumentModel::Number(Number::Integer(n as i128))
    } else {
        DocumentModel::Text(signed_text(n))
    }
}

/// Decimal digits as a document: a number where they are canonical and every reader holds the
/// integer exactly, the digits themselves where not.
pub open spec fn digits_document(digits: Seq<char>) -> DocumentModel {
    if is_canonical_int(digits) && is_safe_integer(signed_value(digits)) {
        DocumentModel::Number(Number::Integer(signed_value(digits) as i128))
    } else {
        DocumentModel::Text(digits)
    }
}

/// Whether every one of the values is a `nat8`.
pub open spec fn all_bytes(items: Seq<ValueModel>) -> bool {
    forall|i: int| 0 <= i < items.len() ==> (#[trigger] items[i]) is Nat8
}

/// The bytes that the values hold, where each is a `nat8`.
pub open spec fn bytes_of(items: Seq<ValueModel>) -> Seq<u8> {
    items.map_values(
        |value: ValueModel|
            match value {
                ValueModel::Nat8(byte) => byte,
                _ => 0u8,
            },
    )
}

/// The document of a reference to a function.
pub open spec fn func_document(principal: Seq<char>, method: Seq<char>) -> DocumentModel {
    DocumentModel::Object(
        seq![
            (principal_key(), DocumentModel::Text(principal)),
            (method_key(), DocumentModel::Text(method)),
        ],
    )
}

/// The document of a value, by nothing but the value's own shape.
///
/// An option shows what it holds, and null where it holds nothing. A record shows each field
/// under the key of its label; a variant is an object of one entry. With `hex`, a vector of
/// one byte or more is hexadecimal text.
pub open spec fn untyped(value: ValueModel, hex: bool) -> DocumentModel
    decreases value,
{
    match value {
        ValueModel::Null => DocumentModel::Null,
        ValueModel::Reserved => DocumentModel::Null,
        ValueModel::Absent => DocumentModel::Null,
        ValueModel::Bool(b) => DocumentModel::Bool(b),
        ValueModel::Number(digits) => digits_document(digits),
        ValueModel::Nat(digits) => digits_document(digits),
        ValueModel::Int(digits) => digits_document(digits),
        ValueModel::Nat8(n) => DocumentModel::Number(Number::Integer(n as i128)),
        ValueModel::Nat16(n) => DocumentModel::Number(Number::Integer(n as i128)),
        ValueModel::Nat32(n) => DocumentModel::Number(Number::Integer(n as i128)),
        ValueModel::Nat64(n) => integer_document(n as int),
        ValueModel::Int8(n) => DocumentModel::Number(Number::Integer(n as i128)),
        ValueModel::Int16(n) => DocumentModel::Number(Number::Integer(n as i128)),
        ValueModel::Int32(n) => DocumentModel::Number(Number::Integer(n as i128)),
        ValueModel::Int64(n) => integer_document(n as int),
        ValueModel::Float32(n) => DocumentModel::Number(n),
        ValueModel::Float64(n) => DocumentModel::Number(n),
        ValueModel::Text(s) => DocumentModel::Text(s),
        ValueModel::Principal(s) => DocumentModel::Text(s),
        ValueModel::Service(s) => DocumentModel::Text(s),
        ValueModel::Func(principal, method) => func_document(principal, method),
        ValueModel::Opt(inner) => untyped(*inner, hex),
        ValueModel::Vector(items) => if hex && items.len() > 0 && all_bytes(items) {
            DocumentModel::Text(hex_text(bytes_of(items)))
        } else {
            DocumentModel::List(untyped_items(items, hex, items.len()))
        },
        ValueModel::Record(fields) => DocumentModel::Object(
            untyped_fields(fields, hex, fields.len()),
        ),
        ValueModel::Variant(field) => DocumentModel::Object(
            seq![(label_key(field.id), untyped(field.value, hex))],
        ),
    }
}

/// The documents of the first `count` of `items`.
pub open spec fn untyped_items(items: Seq<ValueModel>, hex: bool, count: nat) -> Seq<DocumentModel>
    decreases items, count,
{
    if count == 0 || count > items.len() {
        Seq::empty()
    } else {
        untyped_items(items, hex, (count - 1) as nat).push(untyped(items[count - 1], hex))
    }
}

/// The entries of the first `count` of `fields`.
pub open spec fn untyped_fields(fields: Seq<FieldValueModel>, hex: bool, count: nat) -> Seq<
    (Seq<char>, DocumentModel),
>
    decreases fields, count,
{
    if count == 0 || count > fields.len() {
        Seq::empty()
    } else {
        untyped_fields(fields, hex, (count - 1) as nat).push(
            (label_key(fields[count - 1].id), untyped(fields[count - 1].value, hex)),
        )
    }
}

/// The document of a value that is taken to be of the type `ty`.
///
/// Where the value has the shape that the type asks for, the type decides: a field that the
/// type declares, found by its wire number, stands under the declared key and is shown by the
/// declared type; a `nat64` or `int64` is a number whatever its size; with `hex`, a vector of
/// `nat8` is hexadecimal text even when empty. Where it has not, or where a name is not
/// declared or leads back to itself, the value is shown by its own shape.
pub open spec fn typed(
    env: EnvModel,
    ty: TypeModel,
    value: ValueModel,
    names_left: nat,
    hex: bool,
) -> DocumentModel
    decreases value, names_left, ty,
{
    match ty {
        TypeModel::Named(name) => match find_type(env, name) {
            Some(target) => if names_left > 0 {
                typed(env, target, value, (names_left - 1) as nat, hex)
            } else {
                untyped(value, hex)
            },
            None => untyped(value, hex),
        },
        TypeModel::Opt(inner) => match value {
            ValueModel::Opt(held) => typed(env, *inner, *held, names_left, hex),
            _ => untyped(value, hex),
        },
        TypeModel::Vector(element) => match value {
            ValueModel::Vector(items) => if hex && *element == TypeModel::Prim(Prim::Nat8)
                && all_bytes(items) {
                DocumentModel::Text(hex_text(bytes_of(items)))
            } else {
                DocumentModel::List(typed_items(env, *element, items, hex, items.len()))
            },
            _ => untyped(value, hex),
        },
        TypeModel::Record(fields) => match value {
            ValueModel::Record(values) => DocumentModel::Object(
                typed_fields(env, fields, values, hex, values.len()),
            ),
            _ => untyped(value, hex),
        },
        TypeModel::Variant(alternatives) => match value {
            ValueModel::Variant(field) => DocumentModel::Object(
                seq![typed_field(env, alternatives, *field, hex)],
            ),
            _ => untyped(value, hex),
        },
        TypeModel::Prim(Prim::Nat64) => match value {
            ValueModel::Nat64(n) => DocumentModel::Number(Number::Integer(n as i128)),
            _ => untyped(value, hex),
        },
        TypeModel::Prim(Prim::Int64) => match value {
            ValueModel::Int64(n) => DocumentModel::Number(Number::Integer(n as i128)),
            _ => untyped(value, hex),
        },
        _ => untyped(value, hex),
    }
}

/// The documents of the first `count` of `items`, each taken to be of the type `element`.
pub open spec fn typed_items(
    env: EnvModel,
    element: TypeModel,
    items: Seq<ValueModel>,
    hex: bool,
    count: nat,
) -> Seq<DocumentModel>
    decreases items, count,
{
    if count == 0 || count > items.len() {
        Seq::empty()
    } else {
        typed_items(env, element, items, hex, (count - 1) as nat).push(
            typed(env, element, items[count - 1], env.decls.len(), hex),
        )
    }
}

/// The entry of one field of a value, by the first declared field with its wire number if
/// there is one.
pub open spec fn typed_field(
    env: EnvModel,
    declared: Seq<FieldModel>,
    field: FieldValueModel,
    hex: bool,
) -> (Seq<char>, DocumentModel)
    decreases field, 0nat,
{
    match find_field_by_id(declared, label_id(field.id), 0) {
        Some(i) => if 0 <= i < declared.len() {
            (
                label_key(declared[i].label),
                typed(env, declared[i].ty, field.value, env.decls.len(), hex),
            )
        } else {
            (label_key(field.id), untyped(field.value, hex))
        },
        None => (label_key(field.id), untyped(field.value, hex)),
    }
}

/// The entries of the first `count` of `values`.
pub open spec fn typed_fields(
    env: EnvModel,
    declared: Seq<FieldModel>,
    values: Seq<FieldValueModel>,
    hex: bool,
    count: nat,
) -> Seq<(Seq<char>, DocumentModel)>
    decreases values, count,
{
    if count == 0 || count > values.len() {
        Seq::empty()
    } else {
        typed_fields(env, declared, values, hex, (count - 1) as nat).push(
            typed_field(env, declared, values[count - 1], hex),
        )
    }
}

/// The document of a value of the type `ty` under the declarations of `env`.
pub open spec fn typed_document(
    env: EnvModel,
    ty: TypeModel,
    value: ValueModel,
    hex: bool,
) -> DocumentModel {
    typed(env, ty, value, env.decls.len(), hex)
}

/// The document of the argument at `index`: by the type at the same place where there is one,
/// by the value's own shape where the types have run out.
pub open spec fn argument_document(
    env: EnvModel,
    types: Seq<TypeModel>,
    values: Seq<ValueModel>,
    hex: bool,
    index: int,
) -> DocumentModel {
    if 0 <= index < types.len() {
        typed_document(env, types[index], values[index], hex)
    } else {
        untyped(values[index], hex)
    }
}

/// The document of a value by an optional type.
pub open spec fn optionally_typed(
    env: EnvModel,
    ty: Option<TypeModel>,
    value: ValueModel,
    hex: bool,
) -> DocumentModel {
    match ty {
        Some(ty) => typed_document(env, ty, value, hex),
        None => untyped(value, hex),
    }
}

fn integer_to_document(n: i128) -> (doc: Document)
    ensures
        doc@ == integer_document(n as int),
{
    if -(MAX_SAFE_INTEGER as i128) <= n && n <= MAX_SAFE_INTEGER as i128 {
        Document::Number(Number::Integer(n))
    } else {
        Document::Text(signed_decimal_string(n))
    }
}

fn digits_to_document(digits: &String) -> (doc: Document)
    ensures
        doc@ == digits_document(digits@),
{
    match safe_integer_of(digits.as_str()) {
        Some(n) => Document::Number(Number::Integer(n as i128)),
        None => Document::Text(digits.clone()),
    }
}

fn func_to_document(principal: &String, method: &String) -> (doc: Document)
    ensures
        doc@ == func_document(principal@, method@),
{
    let mut entries: Vec<(String, Document)> = Vec::new();
    let first = ("principal".to_owned(), Document::Text(principal.clone()));
    let second = ("method".to_owned(), Document::Text(method.clone()));
    proof {
        lemma_entries_view_push(entries@, first);
        lemma_entries_view_push(entries@.push(first), second);
    }
    entries.push(first);
    entries.push(second);
    let doc = Document::Object(entries);
    assert(doc@->Object_0 =~= func_document(principal@, method@)->Object_0);
    doc
}

fn single_entry(key: String, payload: Document) -> (doc: Document)
    ensures
        doc@ == DocumentModel::Object(seq![(key@, payload@)]),
{
    let mut entries: Vec<(String, Document)> = Vec::new();
    let entry = (key, payload);
    proof {
        lemma_entries_view_push(entries@, entry);
    }
    entries.push(entry);
    let doc = Document::Object(entries);
    assert(doc@->Object_0 =~= seq![(key@, payload@)]);
    doc
}

/// The bytes that the values hold, if each of them is a `nat8`.
pub fn bytes_of_values(items: &Vec<TypedValue>) -> (r: Option<Vec<u8>>)
    ensures
        r is Some <==> all_bytes(values_view(items@)),
        r matches Some(bytes) ==> bytes@ == bytes_of(values_view(items@)),
{
    let ghost models = values_view(items@);
    proof {
        lemma_values_view(items@);
    }
    let mut bytes: Vec<u8> = Vec::new();
    let mut i: usize = 0;
    while i < items.len()
        invariant
            i <= items.len(),
            models == values_view(items@),
            models.len() == items.len(),
            forall|k: int| 0 <= k < items.len() ==> (#[trigger] models[k]) == items[k]@,
            all_bytes(models.take(i as int)),
            bytes@ == bytes_of(models.take(i as int)),
        decreases items.len() - i,
    {
        match &items[i] {
            TypedValue::Nat8(byte) => {
                bytes.push(*byte);
                proof {
                    let next = models.take(i + 1);
                    assert forall|k: int| 0 <= k < next.len() implies (#[trigger] next[k])
                        is Nat8 by {
                        if k < i {
                            assert(next[k] == models.take(i as int)[k]);
                        }
                    }
                    assert(bytes@ =~= bytes_of(next));
                }
            },
            _ => {
                assert(!(models[i as int] is Nat8));
                return None;
            },
        }
        i = i + 1;
    }
    assert(models.take(i as int) =~= models);
    Some(bytes)
}

/// Shows a value by nothing but its own shape. It never fails.
pub fn idl2json(value: &TypedValue, options: &Idl2JsonOptions) -> (doc: Document)
    ensures
        doc@ == untyped(value@, options.hex()),
{
    show_untyped(value, options.shows_hex())
}

/// Shows a value by nothing but its own shape, with bytes as hexadecimal text where `hex` says
/// so.
pub fn show_untyped(value: &TypedValue, hex: bool) -> (doc: Document)
    ensures
        doc@ == untyped(value@, hex),
    decreases value,
{
    match value {
        TypedValue::Null => Document::Null,
        TypedValue::Reserved => Document::Null,
        TypedValue::Absent => Document::Null,
        TypedValue::Bool(b) => Document::Bool(*b),
        TypedValue::Number(digits) => digits_to_document(digits),
        TypedValue::Nat(digits) => digits_to_document(digits),
        TypedValue::Int(digits) => digits_to_document(digits),
        TypedValue::Nat8(n) => Document::Number(Number::Integer(*n as i128)),
        TypedValue::Nat16(n) => Document::Number(Number::Integer(*n as i128)),
        TypedValue::Nat32(n) => Document::Number(Number::Integer(*n as i128)),
        TypedValue::Nat64(n) => integer_to_document(*n as i128),
        TypedValue::Int8(n) => Document::Number(Number::Integer(*n as i128)),
        TypedValue::Int16(n) => Document::Number(Number::Integer(*n as i128)),
        TypedValue::Int32(n) => Document::Number(Number::Integer(*n as i128)),
        TypedValue::Int64(n) => integer_to_document(*n as i128),
        TypedValue::Float32(n) => Document::Number(*n),
        TypedValue::Float64(n) => Document::Number(*n),
        TypedValue::Text(s) => Document::Text(s.clone()),
        TypedValue::Principal(s) => Document::Text(s.clone()),
        TypedValue::Service(s) => Document::Text(s.clone()),
        TypedValue::Func(principal, method) => func_to_document(principal, method),
        TypedValue::Opt(inner) => show_untyped(inner, hex),
        TypedValue::Vector(items) => {
            proof {
                lemma_values_view(items@);
            }
            if hex && items.len() > 0 {
                match bytes_of_values(items) {
                    Some(bytes) => Document::Text(hex_string(&bytes)),
                    None => Document::List(show_untyped_items(items, hex)),
                }
            } else {
                Document::List(show_untyped_items(items, hex))
            }
        },
        TypedValue::Record(fields) => {
            proof {
                lemma_field_values_view(fields@);
            }
            Document::Object(show_untyped_fields(fields, hex))
        },
        TypedValue::Variant(field) => single_entry(
            field.id.key(),
            show_untyped(&field.value, hex),
        ),
    }
}

fn show_untyped_items(items: &Vec<TypedValue>, hex: bool) -> (docs: Vec<Document>)
    ensures
        documents_view(docs@) == untyped_items(values_view(items@), hex, items.len() as nat),
    decreases items,
{
    let ghost models = values_view(items@);
    proof {
        lemma_values_view(items@);
    }
    let mut docs: Vec<Document> = Vec::new();
    let mut i: usize = 0;
    while i < items.len()
        invariant
            i <= items.len(),
            models == values_view(items@),
            models.len() == items.len(),
            forall|k: int| 0 <= k < items.len() ==> (#[trigger] models[k]) == items[k]@,
            documents_view(docs@) == untyped_items(models, hex, i as nat),
        decreases items.len() - i,
    {
        let doc = show_untyped(&items[i], hex);
        proof {
            lemma_documents_view_push(docs@, doc);
        }
        docs.push(doc);
        i = i + 1;
    }
    docs
}

fn show_untyped_fields(fields: &Vec<FieldValue>, hex: bool) -> (entries: Vec<(String, Document)>)
    ensures
        entries_view(entries@) == untyped_fields(
            field_values_view(fields@),
            hex,
            fields.len() as nat,
        ),
    decreases fields,
{
    let ghost models = field_values_view(fields@);
    proof {
        lemma_field_values_view(fields@);
    }
    let mut entries: Vec<(String, Document)> = Vec::new();
    let mut i: usize = 0;
    while i < fields.len()
        invariant
            i <= fields.len(),
            models == field_values_view(fields@),
            models.len() == fields.len(),
            forall|k: int| 0 <= k < fields.len() ==> (#[trigger] models[k]) == fields[k]@,
            entries_view(entries@) == untyped_fields(models, hex, i as nat),
        decreases fields.len() - i,
    {
        let entry = (fields[i].id.key(), show_untyped(&fields[i].value, hex));
        proof {
            lemma_entries_view_push(entries@, entry);
        }
        entries.push(entry);
        i = i + 1;
    }
    entries
}

fn is_nat8(ty: &Type) -> (yes: bool)
    ensures
        yes == (ty@ == TypeModel::Prim(Prim::Nat8)),
{
    match ty {
        Type::Prim(Prim::Nat8) => true,
        _ => false,
    }
}

/// Shows a value that is taken to be of the type `idl_type`, which gives the fields their
/// declared names. It never fails: what the type does not fit is shown by its own shape.
pub fn idl2json_with_weak_names(
    value: &TypedValue,
    idl_type: &Type,
    options: &Idl2JsonOptions,
) -> (doc: Document)
    ensures
        doc@ == typed_document(options.prog@, idl_type@, value@, options.hex()),
{
    show_typed(&options.prog, idl_type, value, options.prog.decls.len(), options.shows_hex())
}

/// Shows a value that is taken to be of the type `ty`, with `names_left` names still to be
/// looked up before something of the value has to be used up.
pub fn show_typed(
    env: &TypeEnv,
    ty: &Type,
    value: &TypedValue,
    names_left: usize,
    hex: bool,
) -> (doc: Document)
    ensures
        doc@ == typed(env@, ty@, value@, names_left as nat, hex),
    decreases value, names_left, ty,
{
    match ty {
        Type::Named(name) => match env.lookup(name) {
            Some(target) => if names_left > 0 {
                show_typed(env, target, value, names_left - 1, hex)
            } else {
                show_untyped(value, hex)
            },
            None => show_untyped(value, hex),
        },
        Type::Opt(inner) => match value {
            TypedValue::Opt(held) => show_typed(env, inner, held, names_left, hex),
            _ => show_untyped(value, hex),
        },
        Type::Vector(element) => match value {
            TypedValue::Vector(items) => {
                proof {
                    lemma_values_view(items@);
                }
                if hex && is_nat8(element) {
                    match bytes_of_values(items) {
                        Some(bytes) => Document::Text(hex_string(&bytes)),
                        None => Document::List(show_typed_items(env, element, items, hex)),
                    }
                } else {
                    Document::List(show_typed_items(env, element, items, hex))
                }
            },
            _ => show_untyped(value, hex),
        },
        Type::Record(fields) => match value {
            TypedValue::Record(values) => {
                proof {
                    lemma_field_values_view(values@);
                }
                Document::Object(show_typed_fields(env, fields, values, hex))
            },
            _ => show_untyped(value, hex),
        },
        Type::Variant(alternatives) => match value {
            TypedValue::Variant(field) => {
                let (key, payload) = show_typed_field(env, alternatives, field, hex);
                single_entry(key, payload)
            },
            _ => show_untyped(value, hex),
        },
        Type::Prim(Prim::Nat64) => match value {
            TypedValue::Nat64(n) => Document::Number(Number::Integer(*n as i128)),
            _ => show_untyped(value, hex),
        },
        Type::Prim(Prim::Int64) => match value {
            TypedValue::Int64(n) => Document::Number(Number::Integer(*n as i128)),
            _ => show_untyped(value, hex),
        },
        _ => show_untyped(value, hex),
    }
}

fn show_typed_items(
    env: &TypeEnv,
    element: &Type,
    items: &Vec<TypedValue>,
    hex: bool,
) -> (docs: Vec<Document>)
    ensures
        documents_view(docs@) == typed_items(
            env@,
            element@,
            values_view(items@),
            hex,
            items.len() as nat,
        ),
    decreases items,
{
    let ghost models = values_view(items@);
    proof {
        lemma_values_view(items@);
    }
    let mut docs: Vec<Document> = Vec::new();
    let mut i: usize = 0;
    while i < items.len()
        invariant
            i <= items.len(),
            models == values_view(items@),
            models.len() == items.len(),
            forall|k: int| 0 <= k < items.len() ==> (#[trigger] models[k]) == items[k]@,
            documents_view(docs@) == typed_items(env@, element@, models, hex, i as nat),
        decreases items.len() - i,
    {
        let doc = show_typed(env, element, &items[i], env.decls.len(), hex);
        proof {
            lemma_documents_view_push(docs@, doc);
        }
        docs.push(doc);
        i = i + 1;
    }
    docs
}

fn show_typed_field(
    env: &TypeEnv,
    declared: &Vec<Field>,
    field: &FieldValue,
    hex: bool,
) -> (entry: (String, Document))
    ensures
        (entry.0@, entry.1@) == typed_field(env@, fields_view(declared@), field@, hex),
    decreases field, 0nat,
{
    proof {
        lemma_fields_view(declared@);
    }
    match field_index_by_id(declared, field.id.id()) {
        Some(i) => (
            declared[i].label.key(),
            show_typed(env, &declared[i].ty, &field.value, env.decls.len(), hex),
        ),
        None => (field.id.key(), show_untyped(&field.value, hex)),
    }
}

fn show_typed_fields(
    env: &TypeEnv,
    declared: &Vec<Field>,
    values: &Vec<FieldValue>,
    hex: bool,
) -> (entries: Vec<(String, Document)>)
    ensures
        entries_view(entries@) == typed_fields(
            env@,
            fields_view(declared@),
            field_values_view(values@),
            hex,
            values.len() as nat,
        ),
    decreases values,
{
    let ghost models = field_values_view(values@);
    proof {
        lemma_field_values_view(values@);
    }
    let mut entries: Vec<(String, Document)> = Vec::new();
    let mut i: usize = 0;
    while i < values.len()
        invariant
            i <= values.len(),
            models == field_values_view(values@),
            models.len() == values.len(),
            forall|k: int| 0 <= k < values.len() ==> (#[trigger] models[k]) == values[k]@,
            entries_view(entries@) == typed_fields(
                env@,
                fields_view(declared@),
                models,
                hex,
                i as nat,
            ),
        decreases values.len() - i,
    {
        let entry = show_typed_field(env, declared, &values[i], hex);
        proof {
            lemma_entries_view_push(entries@, entry);
        }
        entries.push(entry);
        i = i + 1;
    }
    entries
}

/// Shows the values of an argument list, each by the type at its place and on its own. Values
/// beyond the last type are shown by their own shape. It never fails.
pub fn idl_args2json_with_weak_names(
    values: &Vec<TypedValue>,
    idl_types: &Vec<Type>,
    options: &Idl2JsonOptions,
) -> (docs: Vec<Document>)
    ensures
        documents_view(docs@).len() == values.len(),
        forall|i: int|
            0 <= i < values.len() ==> (#[trigger] documents_view(docs@)[i]) == argument_document(
                options.prog@,
                types_view(idl_types@),
                values_view(values@),
                options.hex(),
                i,
            ),
{
    let ghost models = values_view(values@);
    let ghost types = types_view(idl_types@);
    proof {
        lemma_values_view(values@);
    }
    let mut docs: Vec<Document> = Vec::new();
    let mut i: usize = 0;
    while i < values.len()
        invariant
            i <= values.len(),
            models == values_view(values@),
            types == types_view(idl_types@),
            models.len() == values.len(),
            forall|k: int| 0 <= k < values.len() ==> (#[trigger] models[k]) == values[k]@,
            documents_view(docs@).len() == i,
            forall|k: int|
                0 <= k < i ==> (#[trigger] documents_view(docs@)[k]) == argument_document(
                    options.prog@,
                    types,
                    models,
                    options.hex(),
                    k,
                ),
        decreases values.len() - i,
    {
        let doc = if i < idl_types.len() {
            idl2json_with_weak_names(&values[i], &idl_types[i], options)
        } else {
            idl2json(&values[i], options)
        };
        proof {
            lemma_documents_view_push(docs@, doc);
        }
        docs.push(doc);
        i = i + 1;
    }
    docs
}

/// Shows each of the values on its own: by `idl_type` where it is given, by the value's own
/// shape where not. It never fails.
pub fn convert_all(
    values: &Vec<TypedValue>,
    idl_type: Option<&Type>,
    options: &Idl2JsonOptions,
) -> (docs: Vec<Document>)
    ensures
        documents_view(docs@).len() == values.len(),
        forall|i: int|
            0 <= i < values.len() ==> (#[trigger] documents_view(docs@)[i]) == optionally_typed(
                options.prog@,
                match idl_type {
                    Some(ty) => Some(ty@),
                    None => None,
                },
                values_view(values@)[i],
                options.hex(),
            ),
{
    let ghost models = values_view(values@);
    let ghost ty: Option<TypeModel> = match idl_type {
        Some(ty) => Some(ty@),
        None => None,
    };
    proof {
        lemma_values_view(values@);
    }
    let mut docs: Vec<Document> = Vec::new();
    let mut i: usize = 0;
    while i < values.len()
        invariant
            i <= values.len(),
            models == values_view(values@),
            ty == (match idl_type {
                Some(ty) => Some(ty@),
                None => None,
            }),
            models.len() == values.len(),
            forall|k: int| 0 <= k < values.len() ==> (#[trigger] models[k]) == values[k]@,
            documents_view(docs@).len() == i,
            forall|k: int|
                0 <= k < i ==> (#[trigger] documents_view(docs@)[k]) == optionally_typed(
                    options.prog@,
                    ty,
                    models[k],
                    options.hex(),
                ),
        decreases values.len() - i,
    {
        let doc = convert_one(&values[i], idl_type, options);
        proof {
            lemma_documents_view_push(docs@, doc);
        }
        docs.push(doc);
        i = i + 1;
    }
    docs
}

/// Shows one value: by `idl_type` where it is given, by the value's own shape where not.
pub fn convert_one(value: &TypedValue, idl_type: Option<&Type>, options: &Idl2JsonOptions) -> (doc:
    Document)
    ensures
        doc@ == optionally_typed(
            options.prog@,
            match idl_type {
                Some(ty) => Some(ty@),
                None => None,
            },
            value@,
            options.hex(),
        ),
{
    match idl_type {
        Some(ty) => idl2json_with_weak_names(value, ty, options),
        None => idl2json(value, options),
    }
}

} // verus!
