//! Environments in which every name has a meaning.

use vstd::prelude::*;
use crate::types::{
    fields_view, find_type, lemma_fields_view, types_view, EnvModel, Field, FieldModel, Type,
    TypeEnv, TypeModel,
};

verus! {

/// Whether `env` declares every name that `ty` refers to.
pub open spec fn names_resolve(env: EnvModel, ty: TypeModel) -> bool
    decreases ty,
{
    match ty {
        TypeModel::Named(name) => find_type(env, name) is Some,
        TypeModel::Opt(inner) => names_resolve(env, *inner),
        TypeModel::Vector(element) => names_resolve(env, *element),
        TypeModel::Record(fields) => fields_resolve(env, fields, fields.len()),
        TypeModel::Variant(alternatives) => fields_resolve(
            env,
            alternatives,
            alternatives.len(),
        ),
        _ => true,
    }
}

/// Whether `env` declares every name that the types of the first `count` fields refer to.
pub open spec fn fields_resolve(env: EnvModel, fields: Seq<FieldModel>, count: nat) -> bool
    decreases fields, count,
{
    if count == 0 || count > fields.len() {
        true
    } else {
        fields_resolve(env, fields, (count - 1) as nat) && names_resolve(
            env,
            fields[count - 1].ty,
        )
    }
}

/// Whether `env` declares every name that one of the types refers to.
pub open spec fn all_resolve(env: EnvModel, types: Seq<TypeModel>) -> bool {
    forall|i: int| 0 <= i < types.len() ==> names_resolve(env, #[trigger] types[i])
}

/// Whether the environment is closed: it declares every name that one of its declarations, or
/// the init arguments or a method of its service, refers to.
pub open spec fn is_closed(env: EnvModel) -> bool {
    &&& forall|i: int| 0 <= i < env.decls.len() ==> names_resolve(env, (#[trigger] env.decls[i]).ty)
    &&& env.service matches Some(service) ==> {
        &&& service.init_args matches Some(types) ==> all_resolve(env, types)
        &&& forall|i: int|
            0 <= i < service.methods.len() ==> all_resolve(
                env,
                (#[trigger] service.methods[i]).args,
            ) && all_resolve(env, service.methods[i].rets)
    }
}

/// The names of the first `count` fields resolve exactly where those of each of them do.
pub proof fn lemma_fields_resolve(env: EnvModel, fields: Seq<FieldModel>, count: nat)
    requires
        count <= fields.len(),
    ensures
        fields_resolve(env, fields, count) <==> forall|k: int|
            0 <= k < count ==> names_resolve(env, (#[trigger] fields[k]).ty),
    decreases count,
{
    if count > 0 {
        lemma_fields_resolve(env, fields, (count - 1) as nat);
    }
}

impl Type {
    /// Whether `env` declares every name that the type refers to.
    pub fn resolves_in(&self, env: &TypeEnv) -> (yes: bool)
        ensures
            yes == names_resolve(env@, self@),
        decreases self,
    {
        match self {
            Type::Named(name) => env.lookup(name).is_some(),
            Type::Opt(inner) => inner.resolves_in(env),
            Type::Vector(element) => element.resolves_in(env),
            Type::Record(fields) => {
                proof {
                    lemma_fields_view(fields@);
                }
                fields_resolve_in(fields, env)
            },
            Type::Variant(alternatives) => {
                proof {
                    lemma_fields_view(alternatives@);
                }
                fields_resolve_in(alternatives, env)
            },
            _ => true,
        }
    }
}

/// Whether `env` declares every name that the types of the fields refer to.
pub fn fields_resolve_in(fields: &Vec<Field>, env: &TypeEnv) -> (yes: bool)
    ensures
        yes == fields_resolve(env@, fields_view(fields@), fields.len() as nat),
    decreases fields,
{
    let ghost models = fields_view(fields@);
    proof {
        lemma_fields_view(fields@);
    }
    let mut i: usize = 0;
    while i < fields.len()
        invariant
            i <= fields.len(),
            models == fields_view(fields@),
            models.len() == fields.len(),
            forall|k: int| 0 <= k < fields.len() ==> (#[trigger] models[k]) == fields[k]@,
            fields_resolve(env@, models, i as nat),
        decreases fields.len() - i,
    {
        if !fields[i].ty.resolves_in(env) {
            proof {
                lemma_fields_resolve(env@, models, fields.len() as nat);
                assert(!names_resolve(env@, models[i as int].ty));
            }
            return false;
        }
        i = i + 1;
    }
    true
}

/// Whether `env` declares every name that one of the types refers to.
pub fn all_resolve_in(types: &Vec<Type>, env: &TypeEnv) -> (yes: bool)
    ensures
        yes == all_resolve(env@, types_view(types@)),
{
    let mut i: usize = 0;
    while i < types.len()
        invariant
            i <= types.len(),
            forall|k: int| 0 <= k < i ==> names_resolve(env@, #[trigger] types_view(types@)[k]),
        decreases types.len() - i,
    {
        if !types[i].resolves_in(env) {
            assert(!names_resolve(env@, types_view(types@)[i as int]));
            return false;
        }
        i = i + 1;
    }
    true
}

impl TypeEnv {
    /// Whether the environment is closed.
    pub fn is_closed(&self) -> (yes: bool)
        ensures
            yes == is_closed(self@),
    {
        let mut i: usize = 0;
        while i < self.decls.len()
            invariant
                i <= self.decls.len(),
                forall|k: int| 0 <= k < i ==> names_resolve(self@, (#[trigger] self@.decls[k]).ty),
            decreases self.decls.len() - i,
        {
            if !self.decls[i].ty.resolves_in(self) {
                assert(!names_resolve(self@, self@.decls[i as int].ty));
                return false;
            }
            i = i + 1;
        }
        match &self.service {
            None => true,
            Some(service) => {
                match &service.init_args {
                    Some(types) => {
                        if !all_resolve_in(types, self) {
                            return false;
                        }
                    },
                    None => {},
                }
                let mut j: usize = 0;
                while j < service.methods.len()
                    invariant
                        j <= service.methods.len(),
                        self.service == Some(*service),
                        forall|k: int|
                            0 <= k < j ==> all_resolve(
                                self@,
                                (#[trigger] service@.methods[k]).args,
                            ) && all_resolve(self@, service@.methods[k].rets),
                    decreases service.methods.len() - j,
                {
                    if !all_resolve_in(&service.methods[j].args, self) || !all_resolve_in(
                        &service.methods[j].rets,
                        self,
                    ) {
                        assert(!(all_resolve(self@, service@.methods[j as int].args)
                            && all_resolve(self@, service@.methods[j as int].rets)));
                        return false;
                    }
                    j = j + 1;
                }
                true
            },
        }
    }
}

} // verus!
