//! A model: a resolved, uniquely named type — an alias, a struct of
//! properties, an enumeration, or a tagged union.

use vstd::prelude::*;
use crate::array::Array;
use crate::common::clone_opt_text;
use crate::context::Context;
use crate::context::contains_model_name;
use crate::context::lookup_model;
use crate::enumeration::Enumeration;
use crate::enumeration::EnumerationView;
use crate::error::Error;
use crate::error::ErrorView;
use crate::naming::to_snake_case;
use crate::naming::to_upper_camel_case;
use crate::property::Property;
use crate::property::PropertyView;
use crate::reference::ref_name;
use crate::resolution::base_model;
use crate::resolution::finish_model;
use crate::resolution::model_form_wf;
use crate::resolution::label_at;
use crate::resolution::label_count;
use crate::resolution::spec_allof_discover;
use crate::resolution::spec_model_discover;
use crate::resolution::spec_oneof_discover;
use crate::schema::RefView;
use crate::schema::Schema;
use crate::schema::SchemaRef;
use crate::schema::SchemaShape;
use crate::schema::lemma_refs_view;
use crate::schema::refs_view;
use crate::schema::schema_view;
use crate::typeref::TypeRef;
use crate::typeref::TypeRefView;

verus! {

/// A resolved named type. Exactly one of `ty` (alias), `properties` (struct)
/// and `enumeration` is meaningful; `path` is the snake-cased module name the
/// emitted declaration lives under.
pub struct Model {
    pub path: String,
    pub name: String,
    pub ty: Option<TypeRef>,
    pub description: Option<String>,
    pub properties: Vec<Property>,
    pub enumeration: Option<Enumeration>,
}

/// The mathematical image of a `Model`.
pub struct ModelView {
    pub path: Seq<char>,
    pub name: Seq<char>,
    pub ty: Option<TypeRefView>,
    pub description: Option<Seq<char>>,
    pub properties: Seq<PropertyView>,
    pub enumeration: Option<EnumerationView>,
}

impl DeepView for Model {
    type V = ModelView;

    open spec fn deep_view(&self) -> ModelView {
        ModelView {
            path: self.path@,
            name: self.name@,
            ty: self.ty.deep_view(),
            description: self.description.deep_view(),
            properties: self.properties.deep_view(),
            enumeration: self.enumeration.deep_view(),
        }
    }
}

/// Whether two properties of the list share a wire name.
pub open spec fn properties_conflict(ps: Seq<PropertyView>) -> bool {
    exists|a: int, b: int| 0 <= a < b < ps.len() && ps[a].name == ps[b].name
}

impl Model {
    /// Whether this model holds two properties under one wire name. `allOf`
    /// concatenation keeps colliding properties rather than silently
    /// deduplicating them; this makes the ambiguity observable so a caller
    /// can surface it.
    #[verifier::loop_isolation(false)]
    pub fn has_conflicting_properties(&self) -> (r: bool)
        ensures
            r == properties_conflict(self.deep_view().properties),
    {
        let n = self.properties.len();
        let mut i: usize = 0;
        while i < n
            invariant
                0 <= i <= n,
                forall|a: int, b: int|
                    0 <= a < i && a < b < n ==> self.deep_view().properties[a].name
                        != self.deep_view().properties[b].name,
            decreases n - i,
        {
            let mut j: usize = i + 1;
            while j < n
                invariant
                    i < j <= n,
                    forall|b: int|
                        i < b < j ==> self.deep_view().properties[i as int].name
                            != self.deep_view().properties[b].name,
                decreases n - j,
            {
                if self.properties[i].name == self.properties[j].name {
                    proof {
                        assert(self.deep_view().properties[i as int].name == self.deep_view(
                        ).properties[j as int].name);
                    }
                    return true;
                }
                j = j + 1;
            }
            i = i + 1;
        }
        false
    }

    /// All registered models, in registration (discovery) order: a shared,
    /// read-only snapshot of the registry.
    pub fn all<'a>(ctx: &'a Context) -> (r: &'a Vec<Model>)
        ensures
            r.deep_view() == ctx@.models,
    {
        &ctx.models
    }

    /// Registers a model. Registering a second model under an
    /// already-present name fails with the colliding name and leaves the
    /// registry unchanged; it never overwrites.
    pub fn add(ctx: &mut Context, model: Model) -> (r: Result<(), Error>)
        requires
            old(ctx).wf(),
        ensures
            final(ctx).wf(),
            final(ctx).parameters == old(ctx).parameters,
            final(ctx).operations == old(ctx).operations,
            final(ctx).resources == old(ctx).resources,
            match r {
                Ok(_) => !contains_model_name(old(ctx)@.models, model.deep_view().name)
                    && final(ctx)@.models == old(ctx)@.models.push(model.deep_view()),
                Err(e) => contains_model_name(old(ctx)@.models, model.deep_view().name)
                    && e.deep_view() == (ErrorView::DuplicateModel { name: model.deep_view().name })
                    && final(ctx).models == old(ctx).models,
            },
    {
        let mut i: usize = 0;
        while i < ctx.models.len()
            invariant
                old(ctx).wf(),
                0 <= i <= ctx.models.len(),
                ctx.models == old(ctx).models,
                ctx.parameters == old(ctx).parameters,
                ctx.operations == old(ctx).operations,
                ctx.resources == old(ctx).resources,
                forall|k: int| 0 <= k < i ==> ctx@.models[k].name != model.deep_view().name,
            decreases ctx.models.len() - i,
        {
            if ctx.models[i].name == model.name {
                proof {
                    assert(ctx@.models[i as int].name == model.deep_view().name);
                }
                return Err(Error::DuplicateModel { name: model.name.clone() });
            }
            i = i + 1;
        }
        let ghost oldms = ctx@.models;
        let ghost mv = model.deep_view();
        ctx.models.push(model);
        proof {
            assert(ctx@.models =~= oldms.push(mv));
            assert forall|a: int, b: int|
                0 <= a < b < ctx@.models.len() implies ctx@.models[a].name
                != ctx@.models[b].name by {
                if b < oldms.len() {
                    assert(oldms[a].name != oldms[b].name);
                } else {
                    assert(ctx@.models[b] == mv);
                    assert(oldms[a].name != mv.name);
                }
            }
        }
        Ok(())
    }

    /// The first model registered under `name`, as a read-only reference.
    pub fn get<'a>(ctx: &'a Context, name: &str) -> (r: Option<&'a Model>)
        ensures
            match r {
                Some(m) => lookup_model(ctx@.models, name@) == Some(m.deep_view()),
                None => lookup_model(ctx@.models, name@) is None,
            },
    {
        let key = name.to_owned();
        let mut i: usize = 0;
        proof {
            assert(ctx@.models.skip(0) =~= ctx@.models);
        }
        while i < ctx.models.len()
            invariant
                0 <= i <= ctx.models.len(),
                key@ == name@,
                lookup_model(ctx@.models, name@) == lookup_model(
                    ctx@.models.skip(i as int),
                    name@,
                ),
            decreases ctx.models.len() - i,
        {
            if ctx.models[i].name == key {
                proof {
                    assert(ctx@.models.skip(i as int)[0] == ctx@.models[i as int]);
                }
                return Some(&ctx.models[i]);
            }
            proof {
                assert(ctx@.models.skip(i as int)[0] == ctx@.models[i as int]);
                assert(ctx@.models.skip(i as int).drop_first() =~= ctx@.models.skip(
                    i as int + 1,
                ));
            }
            i = i + 1;
        }
        proof {
            assert(ctx@.models.skip(ctx.models.len() as int) =~= Seq::<ModelView>::empty());
        }
        None
    }
}

/// Resolves the branches of a `oneOf`, in order: a reference branch
/// contributes its target name; an inline branch is synthesized as a child
/// model named with the next unused label of the alphabet, which advances
/// only for inline branches.
fn oneof_members(ctx: &mut Context, parent: &str, branches: &Vec<SchemaRef>) -> (r: Result<
    Vec<String>,
    Error,
>)
    requires
        old(ctx).wf(),
    ensures
        final(ctx).wf(),
        final(ctx).parameters == old(ctx).parameters,
        final(ctx).operations == old(ctx).operations,
        final(ctx).resources == old(ctx).resources,
        match r {
            Ok(members) => spec_oneof_discover(
                old(ctx)@.models,
                parent@,
                refs_view(branches@),
                0,
                Seq::empty(),
            ) == Ok::<_, ErrorView>((final(ctx)@.models, members.deep_view())),
            Err(e) => spec_oneof_discover(
                old(ctx)@.models,
                parent@,
                refs_view(branches@),
                0,
                Seq::empty(),
            ) == Err::<(Seq<ModelView>, Seq<Seq<char>>), _>(e.deep_view()),
        },
    decreases refs_view(branches@), 3int,
{
    let mut members: Vec<String> = Vec::new();
    let mut g: usize = 0;
    let mut i: usize = 0;
    proof {
        lemma_refs_view(branches@);
        assert(refs_view(branches@).skip(0) =~= refs_view(branches@));
        assert(members.deep_view() =~= Seq::<Seq<char>>::empty());
    }
    while i < branches.len()
        invariant
            0 <= i <= branches.len(),
            refs_view(branches@).len() == branches@.len(),
            forall|k: int|
                0 <= k < branches@.len() ==> #[trigger] refs_view(branches@)[k] == crate::schema::ref_view(
                    branches@[k],
                ),
            ctx.wf(),
            ctx.parameters == old(ctx).parameters,
            ctx.operations == old(ctx).operations,
            ctx.resources == old(ctx).resources,
            g <= i,
            spec_oneof_discover(old(ctx)@.models, parent@, refs_view(branches@), 0, Seq::empty())
                == spec_oneof_discover(
                ctx@.models,
                parent@,
                refs_view(branches@).skip(i as int),
                g as int,
                members.deep_view(),
            ),
        decreases branches.len() - i,
    {
        proof {
            assert(refs_view(branches@).skip(i as int)[0] == refs_view(branches@)[i as int]);
            assert(refs_view(branches@).skip(i as int).drop_first() =~= refs_view(
                branches@,
            ).skip(i as int + 1));
        }
        match &branches[i] {
            SchemaRef::Reference { reference } => {
                match ref_name(reference.as_str()) {
                    Ok(rn) => {
                        let ghost before = members.deep_view();
                        let ghost rnv = rn@;
                        members.push(rn);
                        proof {
                            assert(members.deep_view() =~= before.push(rnv));
                        }
                    },
                    Err(e) => {
                        return Err(e);
                    },
                }
            },
            SchemaRef::Item(sub) => {
                if g >= 24 {
                    proof {
                        assert(g as int >= label_count());
                    }
                    return Err(Error::LabelsExhausted { name: parent.to_owned() });
                }
                proof {
                    assert((g as int) < label_count());
                }
                let member = to_upper_camel_case(
                    parent.to_owned().concat("_").concat(label_at(g)).as_str(),
                );
                match Model::discover(ctx, member.as_str(), sub) {
                    Ok(_) => {
                        let ghost before = members.deep_view();
                        let ghost mv = member@;
                        members.push(member);
                        g = g + 1;
                        proof {
                            assert(members.deep_view() =~= before.push(mv));
                        }
                    },
                    Err(e) => {
                        return Err(e);
                    },
                }
            },
        }
        i = i + 1;
    }
    proof {
        assert(refs_view(branches@).skip(branches@.len() as int) =~= Seq::<RefView>::empty());
    }
    Ok(members)
}

/// Registration, executable form: refuses a model that does not set exactly
/// one of alias type, enumeration and properties, then registers it under
/// its unique name.
fn register(ctx: &mut Context, model: Model) -> (r: Result<(), Error>)
    requires
        old(ctx).wf(),
    ensures
        final(ctx).wf(),
        final(ctx).parameters == old(ctx).parameters,
        final(ctx).operations == old(ctx).operations,
        final(ctx).resources == old(ctx).resources,
        match r {
            Ok(_) => finish_model(old(ctx)@.models, model.deep_view()) == Ok::<
                Seq<ModelView>,
                ErrorView,
            >(final(ctx)@.models),
            Err(e) => finish_model(old(ctx)@.models, model.deep_view()) == Err::<
                Seq<ModelView>,
                ErrorView,
            >(e.deep_view()) && final(ctx).models == old(ctx).models,
        },
{
    let a = model.ty.is_some();
    let b = model.enumeration.is_some();
    let c = !model.properties.is_empty();
    let ok_form = (a && !b && !c) || (!a && b && !c) || (!a && !b && c);
    proof {
        assert(ok_form == model_form_wf(model.deep_view()));
    }
    if !ok_form {
        Err(Error::InvalidModel { name: model.name.clone() })
    } else {
        Model::add(ctx, model)
    }
}

impl Model {
    /// Recursively resolves schema `s` into a model named `name` and
    /// registers it, together with every child model its nested shapes
    /// synthesize: an enumeration or alias for a primitive, an
    /// ordered-sequence alias for an array, a struct for an object, the
    /// concatenated properties for an `allOf`, a tagged union for a `oneOf`.
    /// Any other kind is a fatal error, as is a model that would set neither
    /// an alias, nor an enumeration, nor any property.
    #[verifier::loop_isolation(false)]
    pub fn discover(ctx: &mut Context, name: &str, schema: &Schema) -> (r: Result<(), Error>)
        requires
            old(ctx).wf(),
        ensures
            final(ctx).wf(),
            final(ctx).parameters == old(ctx).parameters,
            final(ctx).operations == old(ctx).operations,
            final(ctx).resources == old(ctx).resources,
            match r {
                Ok(_) => spec_model_discover(old(ctx)@.models, name@, schema_view(*schema))
                    == Ok::<_, ErrorView>(final(ctx)@.models),
                Err(e) => spec_model_discover(old(ctx)@.models, name@, schema_view(*schema))
                    == Err::<Seq<ModelView>, _>(e.deep_view()),
            },
        decreases schema_view(*schema), 1int,
    {
        let path = to_snake_case(name);
        let mut model = Model {
            path,
            name: name.to_owned(),
            ty: Option::None,
            description: clone_opt_text(&schema.description),
            properties: Vec::new(),
            enumeration: Option::None,
        };
        proof {
            assert(model.properties.deep_view() =~= Seq::<PropertyView>::empty());
            assert(model.deep_view() == base_model(name@, schema_view(*schema)));
        }
        match &schema.shape {
            SchemaShape::Text { .. } => {
                model.enumeration = Enumeration::discover(schema);
                if model.enumeration.is_none() {
                    if name.to_owned() == "DateTime".to_owned() {
                        model.ty = Option::Some(TypeRef::DateTime);
                    } else {
                        model.ty = Option::Some(TypeRef::Text);
                    }
                }
                register(ctx, model)
            },
            SchemaShape::Integer { .. } => {
                model.enumeration = Enumeration::discover(schema);
                if model.enumeration.is_none() {
                    model.ty = Option::Some(TypeRef::Integer);
                }
                register(ctx, model)
            },
            SchemaShape::Array { .. } => {
                let item_name = to_upper_camel_case(name.to_owned().concat("_Item").as_str());
                match Array::discover(ctx, item_name.as_str(), schema) {
                    Ok(t) => {
                        model.ty = Option::Some(t);
                        register(ctx, model)
                    },
                    Err(e) => Err(e),
                }
            },
            SchemaShape::Object { required, properties } => {
                match Property::discover(ctx, &mut model, required, properties) {
                    Ok(_) => register(ctx, model),
                    Err(e) => Err(e),
                }
            },
            SchemaShape::AllOf { branches } => {
                let mut i: usize = 0;
                proof {
                    lemma_refs_view(branches@);
                    assert(refs_view(branches@).skip(0) =~= refs_view(branches@));
                }
                while i < branches.len()
                    invariant
                        0 <= i <= branches.len(),
                        refs_view(branches@).len() == branches@.len(),
                        forall|k: int|
                            0 <= k < branches@.len() ==> #[trigger] refs_view(branches@)[k]
                                == crate::schema::ref_view(branches@[k]),
                        ctx.wf(),
                        ctx.parameters == old(ctx).parameters,
                        ctx.operations == old(ctx).operations,
                        ctx.resources == old(ctx).resources,
                        model.name@ == name@,
                        spec_allof_discover(
                            old(ctx)@.models,
                            name@,
                            refs_view(branches@),
                            base_model(name@, schema_view(*schema)),
                        ) == spec_allof_discover(
                            ctx@.models,
                            name@,
                            refs_view(branches@).skip(i as int),
                            model.deep_view(),
                        ),
                    decreases branches.len() - i,
                {
                    proof {
                        assert(refs_view(branches@).skip(i as int)[0] == refs_view(branches@)[i as int]);
                        assert(refs_view(branches@).skip(i as int).drop_first() =~= refs_view(
                            branches@,
                        ).skip(i as int + 1));
                    }
                    match &branches[i] {
                        SchemaRef::Reference { reference } => {
                            match ref_name(reference.as_str()) {
                                Ok(rn) => {
                                    let found = Model::get(ctx, rn.as_str());
                                    match found {
                                        Option::Some(target) => {
                                            proof {
                                                crate::context::lemma_lookup_model(
                                                    ctx@.models,
                                                    rn@,
                                                );
                                            }
                                            let ghost tprops = target.deep_view().properties;
                                            let ghost before = model.properties.deep_view();
                                            let ghost msnap = model.deep_view();
                                            let mut k: usize = 0;
                                            proof {
                                                assert(before + tprops.take(0) =~= before);
                                            }
                                            while k < target.properties.len()
                                                invariant
                                                    0 <= k <= target.properties.len(),
                                                    tprops.len() == target.properties.len(),
                                                    tprops == target.deep_view().properties,
                                                    model.deep_view().name == msnap.name,
                                                    model.deep_view().path == msnap.path,
                                                    model.deep_view().ty == msnap.ty,
                                                    model.deep_view().description
                                                        == msnap.description,
                                                    model.deep_view().enumeration
                                                        == msnap.enumeration,
                                                    model.properties.deep_view() == before
                                                        + tprops.take(k as int),
                                                decreases target.properties.len() - k,
                                            {
                                                let ghost cur = model.properties.deep_view();
                                                model.properties.push(
                                                    target.properties[k].duplicate(),
                                                );
                                                proof {
                                                    assert(tprops.take(k + 1) =~= tprops.take(
                                                        k as int,
                                                    ).push(tprops[k as int]));
                                                    assert(model.properties.deep_view() =~= cur.push(
                                                        tprops[k as int],
                                                    ));
                                                    assert(model.properties.deep_view() =~= before
                                                        + tprops.take(k + 1));
                                                }
                                                k = k + 1;
                                            }
                                            proof {
                                                assert(tprops.take(tprops.len() as int)
                                                    =~= tprops);
                                            }
                                        },
                                        Option::None => {
                                            proof {
                                                crate::context::lemma_lookup_model(
                                                    ctx@.models,
                                                    rn@,
                                                );
                                            }
                                            return Err(
                                                Error::UnresolvedReference {
                                                    reference: reference.clone(),
                                                },
                                            );
                                        },
                                    }
                                },
                                Err(e) => {
                                    return Err(e);
                                },
                            }
                        },
                        SchemaRef::Item(sub) => {
                            match &sub.shape {
                                SchemaShape::Object { required, properties } => {
                                    match Property::discover(ctx, &mut model, required, properties) {
                                        Ok(_) => {},
                                        Err(e) => {
                                            return Err(e);
                                        },
                                    }
                                },
                                _ => {
                                    return Err(
                                        Error::UnhandledAllOfType {
                                            name: name.to_owned(),
                                            kind: sub.shape.kind_name().to_owned(),
                                        },
                                    );
                                },
                            }
                        },
                    }
                    i = i + 1;
                }
                proof {
                    assert(refs_view(branches@).skip(branches@.len() as int)
                        =~= Seq::<RefView>::empty());
                }
                register(ctx, model)
            },
            SchemaShape::OneOf { branches } => {
                match oneof_members(ctx, name, branches) {
                    Ok(mem) => {
                        model.enumeration = Option::Some(Enumeration::Union(mem));
                        register(ctx, model)
                    },
                    Err(e) => Err(e),
                }
            },
            SchemaShape::Number { .. } => Err(
                Error::UnhandledKind {
                    name: name.to_owned(),
                    kind: schema.shape.kind_name().to_owned(),
                },
            ),
            SchemaShape::Boolean => Err(
                Error::UnhandledKind {
                    name: name.to_owned(),
                    kind: schema.shape.kind_name().to_owned(),
                },
            ),
        }
    }
}

} // verus!
