//! A property: a named, typed field owned by exactly one struct model.

use vstd::prelude::*;
use crate::array::Array;
use crate::common::clone_opt_text;
use crate::common::names_contain;
use crate::context::Context;
use crate::error::Error;
use crate::error::ErrorView;
use crate::model::Model;
use crate::model::ModelView;
use crate::naming::safe_name;
use crate::naming::snake_of;
use crate::naming::spec_safe_name;
use crate::naming::to_snake_case;
use crate::naming::to_upper_camel_case;
use crate::reference::ref_name;
use crate::resolution::spec_properties_discover;
use crate::resolution::spec_property_resolve;
use crate::schema::RefView;
use crate::schema::SchemaRef;
use crate::schema::SchemaShape;
use crate::schema::lemma_props_view;
use crate::schema::props_view;
use crate::schema::ref_view;
use crate::typeref::TypeRef;
use crate::typeref::TypeRefView;

verus! {

/// A field of a struct model. `name` is the original, spec-supplied name and
/// is what the wire (de)serialization maps to; `safe_name` is the
/// identifier-safe form. `required` says whether the field may be entirely
/// absent from a payload; `nullable` whether it may be present with an
/// explicit null. The two are tracked independently.
pub struct Property {
    pub name: String,
    pub safe_name: String,
    pub ty: TypeRef,
    pub description: Option<String>,
    pub required: bool,
    pub nullable: bool,
}

/// The mathematical image of a `Property`.
pub struct PropertyView {
    pub name: Seq<char>,
    pub safe_name: Seq<char>,
    pub ty: TypeRefView,
    pub description: Option<Seq<char>>,
    pub required: bool,
    pub nullable: bool,
}

impl DeepView for Property {
    type V = PropertyView;

    open spec fn deep_view(&self) -> PropertyView {
        PropertyView {
            name: self.name@,
            safe_name: self.safe_name@,
            ty: self.ty.deep_view(),
            description: self.description.deep_view(),
            required: self.required,
            nullable: self.nullable,
        }
    }
}

/// What a fresh property is before its schema is resolved: the original name
/// kept for the wire, the identifier-safe snake-cased form beside it, and a
/// plain-text type with every flag off.
pub open spec fn spec_property_new(name: Seq<char>) -> PropertyView {
    PropertyView {
        name: name,
        safe_name: spec_safe_name(snake_of(name)),
        ty: TypeRefView::Text,
        description: Option::None,
        required: false,
        nullable: false,
    }
}

impl Property {
    /// A fresh property for the given spec-supplied name.
    pub fn new(name: &str) -> (r: Property)
        ensures
            r.deep_view() == spec_property_new(name@),
    {
        let snake = to_snake_case(name);
        Property {
            name: name.to_owned(),
            safe_name: safe_name(snake.as_str()),
            ty: TypeRef::Text,
            description: Option::None,
            required: false,
            nullable: false,
        }
    }

    /// An exact copy; spelled out so that the relation between the copy and
    /// the original is part of the contract.
    pub fn duplicate(&self) -> (r: Property)
        ensures
            r.deep_view() == self.deep_view(),
    {
        Property {
            name: self.name.clone(),
            safe_name: self.safe_name.clone(),
            ty: self.ty.duplicate(),
            description: clone_opt_text(&self.description),
            required: self.required,
            nullable: self.nullable,
        }
    }
}

/// Resolves one declared property against its schema-or-reference, by the
/// same rules as a top-level model, with `{owner}_{pname}` as the child name
/// for any inline nested shape.
fn resolve_property(
    ctx: &mut Context,
    owner: &str,
    required: &Vec<String>,
    pname: &str,
    pref: &SchemaRef,
) -> (r: Result<Property, Error>)
    requires
        old(ctx).wf(),
    ensures
        final(ctx).wf(),
        final(ctx).parameters == old(ctx).parameters,
        final(ctx).operations == old(ctx).operations,
        final(ctx).resources == old(ctx).resources,
        match r {
            Ok(p) => spec_property_resolve(
                old(ctx)@.models,
                owner@,
                required.deep_view(),
                pname@,
                ref_view(*pref),
            ) == Ok::<_, ErrorView>((final(ctx)@.models, p.deep_view())),
            Err(e) => spec_property_resolve(
                old(ctx)@.models,
                owner@,
                required.deep_view(),
                pname@,
                ref_view(*pref),
            ) == Err::<(Seq<ModelView>, PropertyView), _>(e.deep_view()),
        },
    decreases ref_view(*pref), 2int,
{
    let mut prop = Property::new(pname);
    prop.required = names_contain(required, pname);
    match pref {
        SchemaRef::Reference { reference } => {
            match ref_name(reference.as_str()) {
                Ok(rn) => {
                    prop.ty = TypeRef::Named(rn);
                    Ok(prop)
                },
                Err(e) => Err(e),
            }
        },
        SchemaRef::Item(sub) => {
            prop.nullable = sub.nullable;
            prop.description = clone_opt_text(&sub.description);
            let child = to_upper_camel_case(owner.to_owned().concat("_").concat(pname).as_str());
            match &sub.shape {
                SchemaShape::Text { enumeration } => {
                    if enumeration.len() == 0 {
                        prop.ty = TypeRef::Text;
                        Ok(prop)
                    } else {
                        match Model::discover(ctx, child.as_str(), sub) {
                            Ok(_) => {
                                prop.ty = TypeRef::Named(child);
                                Ok(prop)
                            },
                            Err(e) => Err(e),
                        }
                    }
                },
                SchemaShape::Integer { enumeration } => {
                    if enumeration.len() == 0 {
                        prop.ty = TypeRef::Integer;
                        Ok(prop)
                    } else {
                        match Model::discover(ctx, child.as_str(), sub) {
                            Ok(_) => {
                                prop.ty = TypeRef::Named(child);
                                Ok(prop)
                            },
                            Err(e) => Err(e),
                        }
                    }
                },
                SchemaShape::Number { has_enumeration } => {
                    if !*has_enumeration {
                        prop.ty = TypeRef::Number;
                        Ok(prop)
                    } else {
                        match Model::discover(ctx, child.as_str(), sub) {
                            Ok(_) => {
                                prop.ty = TypeRef::Named(child);
                                Ok(prop)
                            },
                            Err(e) => Err(e),
                        }
                    }
                },
                SchemaShape::Boolean => {
                    prop.ty = TypeRef::Boolean;
                    Ok(prop)
                },
                SchemaShape::Array { .. } => {
                    match Array::discover(ctx, child.as_str(), sub) {
                        Ok(t) => {
                            prop.ty = t;
                            Ok(prop)
                        },
                        Err(e) => Err(e),
                    }
                },
                SchemaShape::Object { .. } => {
                    match Model::discover(ctx, child.as_str(), sub) {
                        Ok(_) => {
                            prop.ty = TypeRef::Named(child);
                            Ok(prop)
                        },
                        Err(e) => Err(e),
                    }
                },
                SchemaShape::AllOf { .. } => {
                    match Model::discover(ctx, child.as_str(), sub) {
                        Ok(_) => {
                            prop.ty = TypeRef::Named(child);
                            Ok(prop)
                        },
                        Err(e) => Err(e),
                    }
                },
                SchemaShape::OneOf { .. } => {
                    match Model::discover(ctx, child.as_str(), sub) {
                        Ok(_) => {
                            prop.ty = TypeRef::Named(child);
                            Ok(prop)
                        },
                        Err(e) => Err(e),
                    }
                },
            }
        },
    }
}

impl Property {
    /// Resolves every declared property of `model`, in declaration order,
    /// appending each to the model's property list and registering whatever
    /// child models the nested shapes synthesize.
    pub fn discover(
        ctx: &mut Context,
        model: &mut Model,
        required: &Vec<String>,
        properties: &Vec<(String, SchemaRef)>,
    ) -> (r: Result<(), Error>)
        requires
            old(ctx).wf(),
        ensures
            final(ctx).wf(),
            final(ctx).parameters == old(ctx).parameters,
            final(ctx).operations == old(ctx).operations,
            final(ctx).resources == old(ctx).resources,
            final(model).name == old(model).name,
            final(model).path == old(model).path,
            final(model).ty == old(model).ty,
            final(model).description == old(model).description,
            final(model).enumeration == old(model).enumeration,
            match r {
                Ok(_) => spec_properties_discover(
                    old(ctx)@.models,
                    old(model).name@,
                    required.deep_view(),
                    props_view(properties@),
                    old(model).properties.deep_view(),
                ) == Ok::<_, ErrorView>(
                    (final(ctx)@.models, final(model).properties.deep_view()),
                ),
                Err(e) => spec_properties_discover(
                    old(ctx)@.models,
                    old(model).name@,
                    required.deep_view(),
                    props_view(properties@),
                    old(model).properties.deep_view(),
                ) == Err::<(Seq<ModelView>, Seq<PropertyView>), _>(e.deep_view()),
            },
        decreases props_view(properties@), 3int,
    {
        let owner = model.name.clone();
        let mut i: usize = 0;
        proof {
            lemma_props_view(properties@);
            assert(props_view(properties@).skip(0) =~= props_view(properties@));
        }
        while i < properties.len()
            invariant
                0 <= i <= properties.len(),
                props_view(properties@).len() == properties@.len(),
                forall|k: int|
                    0 <= k < properties@.len() ==> #[trigger] props_view(properties@)[k] == (
                        properties@[k].0@,
                        ref_view(properties@[k].1),
                    ),
                ctx.wf(),
                ctx.parameters == old(ctx).parameters,
                ctx.operations == old(ctx).operations,
                ctx.resources == old(ctx).resources,
                model.name == old(model).name,
                model.path == old(model).path,
                model.ty == old(model).ty,
                model.description == old(model).description,
                model.enumeration == old(model).enumeration,
                owner@ == old(model).name@,
                spec_properties_discover(
                    old(ctx)@.models,
                    old(model).name@,
                    required.deep_view(),
                    props_view(properties@),
                    old(model).properties.deep_view(),
                ) == spec_properties_discover(
                    ctx@.models,
                    old(model).name@,
                    required.deep_view(),
                    props_view(properties@).skip(i as int),
                    model.properties.deep_view(),
                ),
            decreases properties.len() - i,
        {
            let pair = &properties[i];
            proof {
                assert(props_view(properties@).skip(i as int)[0] == props_view(properties@)[i as int]);
                assert(props_view(properties@).skip(i as int).drop_first()
                    =~= props_view(properties@).skip(i as int + 1));
                assert(decreases_to!(
                    props_view(properties@), 3int => ref_view(properties@[i as int].1), 2int));
            }
            match resolve_property(ctx, owner.as_str(), required, pair.0.as_str(), &pair.1) {
                Ok(p) => {
                    let ghost pv = p.deep_view();
                    let ghost before = model.properties.deep_view();
                    model.properties.push(p);
                    proof {
                        assert(model.properties.deep_view() =~= before.push(pv));
                    }
                },
                Err(e) => {
                    return Err(e);
                },
            }
            i = i + 1;
        }
        proof {
            assert(props_view(properties@).skip(properties@.len() as int)
                =~= Seq::<(Seq<char>, RefView)>::empty());
        }
        Ok(())
    }
}

} // verus!
