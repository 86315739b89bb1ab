//! Interface types and the environment that gives the named ones their meaning.

use vstd::prelude::*;
use crate::decimal::{decimal_string, decimal_text};
use crate::error::{failure, ConversionError, ErrorKind, ErrorKindModel};
use crate::hash::{idl_hash, name_hash};

verus! {

/// The primitive types.
#[derive(Clone, Copy, Debug, PartialEq, Eq, Structural)]
pub enum Prim {
    Null,
    Bool,
    Nat,
    Int,
    Nat8,
    Nat16,
    Nat32,
    Nat64,
    Int8,
    Int16,
    Int32,
    Int64,
    Float32,
    Float64,
    Text,
    Reserved,
    Empty,
}

/// What a record field or a variant alternative is known by: its declared name, or a bare number
/// where no name is at hand.
#[derive(Debug, PartialEq, Eq)]
pub enum Label {
    Named(String),
    Id(u32),
}

/// A `Label` as a mathematical value.
pub enum LabelModel {
    Named(Seq<char>),
    Id(u32),
}

impl View for Label {
    type V = LabelModel;

    open spec fn view(&self) -> LabelModel {
        match self {
            Label::Named(name) => LabelModel::Named(name@),
            Label::Id(id) => LabelModel::Id(*id),
        }
    }
}

/// The document key under which a field with this label stands: the name, or the number in
/// decimal digits.
pub open spec fn label_key(label: LabelModel) -> Seq<char> {
    match label {
        LabelModel::Named(name) => name,
        LabelModel::Id(id) => decimal_text(id as nat),
    }
}

/// The number that stands for the label on the wire: the hash of the name, or the number
/// itself.
pub open spec fn label_id(label: LabelModel) -> u32 {
    match label {
        LabelModel::Named(name) => name_hash(name),
        LabelModel::Id(id) => id,
    }
}

impl Label {
    /// The number that stands for the label on the wire.
    pub fn id(&self) -> (id: u32)
        ensures
            id == label_id(self@),
    {
        match self {
            Label::Named(name) => idl_hash(name.as_str()),
            Label::Id(id) => *id,
        }
    }

    /// The document key under which a field with this label stands.
    pub fn key(&self) -> (key: String)
        ensures
            key@ == label_key(self@),
    {
        match self {
            Label::Named(name) => name.clone(),
            Label::Id(id) => decimal_string(*id as u128),
        }
    }
}

impl Clone for Label {
    fn clone(&self) -> (copy: Self)
        ensures
            copy == *self,
    {
        match self {
            Label::Named(name) => Label::Named(name.clone()),
            Label::Id(id) => Label::Id(*id),
        }
    }
}

/// A field of a record type, or an alternative of a variant type.
#[derive(Debug, PartialEq, Eq)]
pub struct Field {
    pub label: Label,
    pub ty: Type,
}

/// A `Field` as a mathematical value.
pub struct FieldModel {
    pub label: LabelModel,
    pub ty: TypeModel,
}

/// An interface type. `Named` points into a `TypeEnv`; `Func` and `Service` are the types of
/// references, of which a conversion needs no more than the kind.
#[derive(Debug, PartialEq, Eq)]
pub enum Type {
    Prim(Prim),
    Principal,
    Func,
    Service,
    Named(String),
    Opt(Box<Type>),
    Vector(Box<Type>),
    Record(Vec<Field>),
    Variant(Vec<Field>),
}

/// A `Type` as a mathematical value.
pub enum TypeModel {
    Prim(Prim),
    Principal,
    Func,
    Service,
    Named(Seq<char>),
    Opt(Box<TypeModel>),
    Vector(Box<TypeModel>),
    Record(Seq<FieldModel>),
    Variant(Seq<FieldModel>),
}

/// The mathematical value of a type.
pub open spec fn type_view(ty: Type) -> TypeModel
    decreases ty,
{
    match ty {
        Type::Prim(p) => TypeModel::Prim(p),
        Type::Principal => TypeModel::Principal,
        Type::Func => TypeModel::Func,
        Type::Service => TypeModel::Service,
        Type::Named(name) => TypeModel::Named(name@),
        Type::Opt(inner) => TypeModel::Opt(Box::new(type_view(*inner))),
        Type::Vector(element) => TypeModel::Vector(Box::new(type_view(*element))),
        Type::Record(fields) => TypeModel::Record(fields_view(fields@)),
        Type::Variant(fields) => TypeModel::Variant(fields_view(fields@)),
    }
}

/// The mathematical values of the fields of a record or variant type.
pub open spec fn fields_view(fields: Seq<Field>) -> Seq<FieldModel>
    decreases fields,
{
    if fields.len() == 0 {
        Seq::empty()
    } else {
        fields_view(fields.drop_last()).push(
            FieldModel { label: fields.last().label@, ty: type_view(fields.last().ty) },
        )
    }
}

impl View for Type {
    type V = TypeModel;

    open spec fn view(&self) -> TypeModel {
        type_view(*self)
    }
}

impl View for Field {
    type V = FieldModel;

    open spec fn view(&self) -> FieldModel {
        FieldModel { label: self.label@, ty: self.ty@ }
    }
}

/// The view of a list of fields is the list of their views.
pub proof fn lemma_fields_view(fields: Seq<Field>)
    ensures
        fields_view(fields).len() == fields.len(),
        forall|i: int| 0 <= i < fields.len() ==> (#[trigger] fields_view(fields)[i]) == fields[i]@,
    decreases fields.len(),
{
    if fields.len() > 0 {
        lemma_fields_view(fields.drop_last());
    }
}

/// The place of the first field under `key` at or after `start`.
pub open spec fn find_field(fields: Seq<FieldModel>, key: Seq<char>, start: int) -> Option<int>
    decreases fields.len() - start,
{
    if start < 0 || start >= fields.len() {
        None
    } else if label_key(fields[start].label) == key {
        Some(start)
    } else {
        find_field(fields, key, start + 1)
    }
}

/// What is found is the first field under the key; nothing is found where there is none.
pub proof fn lemma_find_field(fields: Seq<FieldModel>, key: Seq<char>, start: int)
    requires
        0 <= start,
    ensures
        find_field(fields, key, start) matches Some(i) ==> start <= i < fields.len() && label_key(
            fields[i].label,
        ) == key && forall|j: int| start <= j < i ==> label_key(fields[j].label) != key,
        find_field(fields, key, start) is None ==> forall|j: int|
            start <= j < fields.len() ==> label_key(fields[j].label) != key,
    decreases fields.len() - start,
{
    if start < fields.len() && label_key(fields[start].label) != key {
        lemma_find_field(fields, key, start + 1);
    }
}

/// The place of the first field with the wire number `id` at or after `start`.
pub open spec fn find_field_by_id(fields: Seq<FieldModel>, id: u32, start: int) -> Option<int>
    decreases fields.len() - start,
{
    if start < 0 || start >= fields.len() {
        None
    } else if label_id(fields[start].label) == id {
        Some(start)
    } else {
        find_field_by_id(fields, id, start + 1)
    }
}

/// What is found is the first field with the wire number; nothing is found where there is
/// none.
pub proof fn lemma_find_field_by_id(fields: Seq<FieldModel>, id: u32, start: int)
    requires
        0 <= start,
    ensures
        find_field_by_id(fields, id, start) matches Some(i) ==> start <= i < fields.len()
            && label_id(fields[i].label) == id && forall|j: int|
            start <= j < i ==> label_id(fields[j].label) != id,
        find_field_by_id(fields, id, start) is None ==> forall|j: int|
            start <= j < fields.len() ==> label_id(fields[j].label) != id,
    decreases fields.len() - start,
{
    if start < fields.len() && label_id(fields[start].label) != id {
        lemma_find_field_by_id(fields, id, start + 1);
    }
}

/// Finds the first field with the wire number `id`.
pub fn field_index_by_id(fields: &Vec<Field>, id: u32) -> (found: Option<usize>)
    ensures
        match found {
            Some(i) => find_field_by_id(fields_view(fields@), id, 0) == Some(i as int) && i
                < fields.len(),
            None => find_field_by_id(fields_view(fields@), id, 0) is None,
        },
{
    proof {
        lemma_fields_view(fields@);
    }
    let mut i: usize = 0;
    while i < fields.len()
        invariant
            i <= fields.len(),
            fields_view(fields@).len() == fields.len(),
            forall|j: int|
                0 <= j < fields.len() ==> (#[trigger] fields_view(fields@)[j]) == fields[j]@,
            find_field_by_id(fields_view(fields@), id, 0) == find_field_by_id(
                fields_view(fields@),
                id,
                i as int,
            ),
        decreases fields.len() - i,
    {
        if fields[i].label.id() == id {
            return Some(i);
        }
        i = i + 1;
    }
    None
}

/// Finds the first field under `key`.
pub fn field_index(fields: &Vec<Field>, key: &String) -> (found: Option<usize>)
    ensures
        match found {
            Some(i) => find_field(fields_view(fields@), key@, 0) == Some(i as int) && i
                < fields.len(),
            None => find_field(fields_view(fields@), key@, 0) is None,
        },
{
    proof {
        lemma_fields_view(fields@);
    }
    let mut i: usize = 0;
    while i < fields.len()
        invariant
            i <= fields.len(),
            fields_view(fields@).len() == fields.len(),
            forall|j: int|
                0 <= j < fields.len() ==> (#[trigger] fields_view(fields@)[j]) == fields[j]@,
            find_field(fields_view(fields@), key@, 0) == find_field(
                fields_view(fields@),
                key@,
                i as int,
            ),
        decreases fields.len() - i,
    {
        let candidate = fields[i].label.key();
        if candidate == *key {
            return Some(i);
        }
        i = i + 1;
    }
    None
}

/// The mathematical values of a list of types.
pub open spec fn types_view(types: Seq<Type>) -> Seq<TypeModel> {
    types.map_values(|ty: Type| ty@)
}

/// A type under the name by which others refer to it.
#[derive(Debug, PartialEq, Eq)]
pub struct Declaration {
    pub name: String,
    pub ty: Type,
}

/// A `Declaration` as a mathematical value.
pub struct DeclarationModel {
    pub name: Seq<char>,
    pub ty: TypeModel,
}

impl View for Declaration {
    type V = DeclarationModel;

    open spec fn view(&self) -> DeclarationModel {
        DeclarationModel { name: self.name@, ty: self.ty@ }
    }
}

/// A method of a service: what it takes and what it gives.
#[derive(Debug, PartialEq, Eq)]
pub struct Method {
    pub name: String,
    pub args: Vec<Type>,
    pub rets: Vec<Type>,
}

/// A `Method` as a mathematical value.
pub struct MethodModel {
    pub name: Seq<char>,
    pub args: Seq<TypeModel>,
    pub rets: Seq<TypeModel>,
}

impl View for Method {
    type V = MethodModel;

    open spec fn view(&self) -> MethodModel {
        MethodModel { name: self.name@, args: types_view(self.args@), rets: types_view(self.rets@) }
    }
}

/// The service that an interface describes. `init_args` is absent where the interface has no
/// init clause.
#[derive(Debug, PartialEq, Eq)]
pub struct Service {
    pub init_args: Option<Vec<Type>>,
    pub methods: Vec<Method>,
}

/// A `Service` as a mathematical value.
pub struct ServiceModel {
    pub init_args: Option<Seq<TypeModel>>,
    pub methods: Seq<MethodModel>,
}

impl View for Service {
    type V = ServiceModel;

    open spec fn view(&self) -> ServiceModel {
        ServiceModel {
            init_args: match self.init_args {
                Some(args) => Some(types_view(args@)),
                None => None,
            },
            methods: self.methods@.map_values(|m: Method| m@),
        }
    }
}

/// The named types of an interface, in the order of their declaration, and its service if it
/// has one.
#[derive(Debug, PartialEq, Eq)]
pub struct TypeEnv {
    pub decls: Vec<Declaration>,
    pub service: Option<Service>,
}

/// A `TypeEnv` as a mathematical value.
pub struct EnvModel {
    pub decls: Seq<DeclarationModel>,
    pub service: Option<ServiceModel>,
}

impl View for TypeEnv {
    type V = EnvModel;

    open spec fn view(&self) -> EnvModel {
        EnvModel {
            decls: self.decls@.map_values(|d: Declaration| d@),
            service: match self.service {
                Some(s) => Some(s@),
                None => None,
            },
        }
    }
}

/// The place of the first declaration of `name` at or after `start`.
pub open spec fn find_decl(decls: Seq<DeclarationModel>, name: Seq<char>, start: int) -> Option<int>
    decreases decls.len() - start,
{
    if start < 0 || start >= decls.len() {
        None
    } else if decls[start].name == name {
        Some(start)
    } else {
        find_decl(decls, name, start + 1)
    }
}

/// What `name` stands for: the type of its first declaration, found by exact match.
pub open spec fn find_type(env: EnvModel, name: Seq<char>) -> Option<TypeModel> {
    match find_decl(env.decls, name, 0) {
        Some(i) => Some(env.decls[i].ty),
        None => None,
    }
}

/// The argument types of the service's init clause.
pub open spec fn init_arg_types(env: EnvModel) -> Option<Seq<TypeModel>> {
    match env.service {
        Some(service) => service.init_args,
        None => None,
    }
}

/// What is found is the first declaration of the name; nothing is found where there is
/// none.
pub proof fn lemma_find_decl(decls: Seq<DeclarationModel>, name: Seq<char>, start: int)
    requires
        0 <= start,
    ensures
        find_decl(decls, name, start) matches Some(i) ==> start <= i < decls.len() && decls[i].name
            == name && forall|j: int| start <= j < i ==> decls[j].name != name,
        find_decl(decls, name, start) is None ==> forall|j: int|
            start <= j < decls.len() ==> decls[j].name != name,
    decreases decls.len() - start,
{
    if start < decls.len() && decls[start].name != name {
        lemma_find_decl(decls, name, start + 1);
    }
}

impl TypeEnv {
    /// An environment that declares nothing.
    pub fn new() -> (env: TypeEnv)
        ensures
            env@.decls.len() == 0,
            env@.service is None,
    {
        TypeEnv { decls: Vec::new(), service: None }
    }

    /// The argument types of the service's init clause. It fails with `NoInitArgs` where the
    /// interface has no service, or a service without an init clause.
    pub fn get_init_arg_type(&self) -> (result: Result<&Vec<Type>, ConversionError>)
        ensures
            match result {
                Ok(types) => init_arg_types(self@) == Some(types_view(types@)),
                Err(error) => init_arg_types(self@) is None && error@ == failure(
                    ErrorKindModel::NoInitArgs,
                ),
            },
    {
        match &self.service {
            Some(service) => match &service.init_args {
                Some(types) => Ok(types),
                None => Err(ConversionError::new(ErrorKind::NoInitArgs)),
            },
            None => Err(ConversionError::new(ErrorKind::NoInitArgs)),
        }
    }

    /// Looks `name` up among the declarations.
    pub fn lookup(&self, name: &String) -> (found: Option<&Type>)
        ensures
            match found {
                Some(ty) => find_type(self@, name@) == Some(ty@),
                None => find_type(self@, name@) is None,
            },
    {
        let mut i: usize = 0;
        while i < self.decls.len()
            invariant
                i <= self.decls.len(),
                find_decl(self@.decls, name@, 0) == find_decl(self@.decls, name@, i as int),
            decreases self.decls.len() - i,
        {
            if self.decls[i].name == *name {
                return Some(&self.decls[i].ty);
            }
            i = i + 1;
        }
        None
    }
}

} // verus!
