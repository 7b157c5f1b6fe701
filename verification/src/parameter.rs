//! A parameter: a named, typed value bound to the URL path or the query
//! string of an operation.

use vstd::prelude::*;
use crate::array::Array;
use crate::common::clone_opt_text;
use crate::context::Context;
use crate::context::contains_parameter_name;
use crate::context::lookup_parameter;
use crate::error::Error;
use crate::error::ErrorView;
use crate::model::Model;
use crate::model::ModelView;
use crate::naming::safe_name;
use crate::naming::snake_of;
use crate::naming::spec_safe_name;
use crate::naming::to_snake_case;
use crate::resolution::spec_array_discover;
use crate::resolution::spec_model_discover;
use crate::schema::RefView;
use crate::schema::SchemaRef;
use crate::schema::SchemaShape;
use crate::schema::ShapeView;
use crate::schema::ref_view;
use crate::typeref::TypeRef;
use crate::typeref::TypeRefView;

verus! {

/// A resolved parameter. `ty_name` is the synthesized name it is registered
/// under; `original_name` the wire/template name; `name` and `safe_name` the
/// identifier forms.
pub struct Parameter {
    pub ty_name: String,
    pub original_name: String,
    pub name: String,
    pub safe_name: String,
    pub ty: TypeRef,
    pub description: Option<String>,
    pub required: bool,
}

/// The mathematical image of a `Parameter`.
pub struct ParameterView {
    pub ty_name: Seq<char>,
    pub original_name: Seq<char>,
    pub name: Seq<char>,
    pub safe_name: Seq<char>,
    pub ty: TypeRefView,
    pub description: Option<Seq<char>>,
    pub required: bool,
}

impl DeepView for Parameter {
    type V = ParameterView;

    open spec fn deep_view(&self) -> ParameterView {
        ParameterView {
            ty_name: self.ty_name@,
            original_name: self.original_name@,
            name: self.name@,
            safe_name: self.safe_name@,
            ty: self.ty.deep_view(),
            description: self.description.deep_view(),
            required: self.required,
        }
    }
}

impl Parameter {
    /// An exact copy; spelled out so that the relation between the copy and
    /// the original is part of the contract.
    pub fn duplicate(&self) -> (r: Parameter)
        ensures
            r.deep_view() == self.deep_view(),
    {
        Parameter {
            ty_name: self.ty_name.clone(),
            original_name: self.original_name.clone(),
            name: self.name.clone(),
            safe_name: self.safe_name.clone(),
            ty: self.ty.duplicate(),
            description: clone_opt_text(&self.description),
            required: self.required,
        }
    }
}

impl Parameter {
    /// All registered parameters, in registration order: a shared, read-only
    /// snapshot of the registry.
    pub fn all<'a>(ctx: &'a Context) -> (r: &'a Vec<Parameter>)
        ensures
            r.deep_view() == ctx@.parameters,
    {
        &ctx.parameters
    }

    /// Registers a parameter under its synthesized type name. Registering a
    /// second parameter under an already-present type name fails with the
    /// colliding name and leaves the registry unchanged.
    pub fn add(ctx: &mut Context, parameter: Parameter) -> (r: Result<(), Error>)
        requires
            old(ctx).wf(),
        ensures
            final(ctx).wf(),
            final(ctx).models == old(ctx).models,
            final(ctx).operations == old(ctx).operations,
            final(ctx).resources == old(ctx).resources,
            match r {
                Ok(_) => !contains_parameter_name(old(ctx)@.parameters, parameter.deep_view().ty_name)
                    && final(ctx)@.parameters == old(ctx)@.parameters.push(parameter.deep_view()),
                Err(e) => contains_parameter_name(old(ctx)@.parameters, parameter.deep_view().ty_name)
                    && e.deep_view() == (ErrorView::DuplicateParameter {
                    name: parameter.deep_view().ty_name,
                }) && final(ctx).parameters == old(ctx).parameters,
            },
    {
        let mut i: usize = 0;
        while i < ctx.parameters.len()
            invariant
                old(ctx).wf(),
                0 <= i <= ctx.parameters.len(),
                ctx.models == old(ctx).models,
                ctx.parameters == old(ctx).parameters,
                ctx.operations == old(ctx).operations,
                ctx.resources == old(ctx).resources,
                forall|k: int|
                    0 <= k < i ==> ctx@.parameters[k].ty_name != parameter.deep_view().ty_name,
            decreases ctx.parameters.len() - i,
        {
            if ctx.parameters[i].ty_name == parameter.ty_name {
                proof {
                    assert(ctx@.parameters[i as int].ty_name == parameter.deep_view().ty_name);
                }
                return Err(Error::DuplicateParameter { name: parameter.ty_name.clone() });
            }
            i = i + 1;
        }
        let ghost oldps = ctx@.parameters;
        let ghost pv = parameter.deep_view();
        ctx.parameters.push(parameter);
        proof {
            assert(ctx@.parameters =~= oldps.push(pv));
            assert forall|a: int, b: int|
                0 <= a < b < ctx@.parameters.len() implies ctx@.parameters[a].ty_name
                != ctx@.parameters[b].ty_name by {
                if b < oldps.len() {
                    assert(oldps[a].ty_name != oldps[b].ty_name);
                } else {
                    assert(ctx@.parameters[b] == pv);
                    assert(oldps[a].ty_name != pv.ty_name);
                }
            }
        }
        Ok(())
    }

    /// The first parameter registered under type name `name`, as a read-only
    /// reference.
    pub fn get<'a>(ctx: &'a Context, name: &str) -> (r: Option<&'a Parameter>)
        ensures
            match r {
                Some(p) => lookup_parameter(ctx@.parameters, name@) == Some(p.deep_view()),
                None => lookup_parameter(ctx@.parameters, name@) is None,
            },
    {
        let key = name.to_owned();
        let mut i: usize = 0;
        proof {
            assert(ctx@.parameters.skip(0) =~= ctx@.parameters);
        }
        while i < ctx.parameters.len()
            invariant
                0 <= i <= ctx.parameters.len(),
                key@ == name@,
                lookup_parameter(ctx@.parameters, name@) == lookup_parameter(
                    ctx@.parameters.skip(i as int),
                    name@,
                ),
            decreases ctx.parameters.len() - i,
        {
            if ctx.parameters[i].ty_name == key {
                proof {
                    assert(ctx@.parameters.skip(i as int)[0] == ctx@.parameters[i as int]);
                }
                return Some(&ctx.parameters[i]);
            }
            proof {
                assert(ctx@.parameters.skip(i as int)[0] == ctx@.parameters[i as int]);
                assert(ctx@.parameters.skip(i as int).drop_first() =~= ctx@.parameters.skip(
                    i as int + 1,
                ));
            }
            i = i + 1;
        }
        proof {
            assert(ctx@.parameters.skip(ctx.parameters.len() as int)
                =~= Seq::<ParameterView>::empty());
        }
        None
    }
}

/// The schema-or-content carrier of a parameter declaration.
pub enum ParameterFormat {
    Schema(SchemaRef),
    Content,
}

/// A parameter declaration as the input description gives it.
pub struct ParameterData {
    pub name: String,
    pub description: Option<String>,
    pub required: bool,
    pub format: ParameterFormat,
}

/// The mathematical image of a `ParameterFormat`.
pub enum ParameterFormatView {
    Schema(RefView),
    Content,
}

/// The mathematical image of a `ParameterData`.
pub struct ParameterDataView {
    pub name: Seq<char>,
    pub description: Option<Seq<char>>,
    pub required: bool,
    pub format: ParameterFormatView,
}

pub open spec fn parameter_data_view(d: ParameterData) -> ParameterDataView {
    ParameterDataView {
        name: d.name@,
        description: d.description.deep_view(),
        required: d.required,
        format: match d.format {
            ParameterFormat::Schema(r) => ParameterFormatView::Schema(ref_view(r)),
            ParameterFormat::Content => ParameterFormatView::Content,
        },
    }
}

/// Registration of a resolved parameter: appended under its synthesized type
/// name unless that name is already taken.
pub open spec fn finish_parameter(
    ms: Seq<ModelView>,
    ps: Seq<ParameterView>,
    p: ParameterView,
) -> Result<(Seq<ModelView>, Seq<ParameterView>, ParameterView), ErrorView> {
    if contains_parameter_name(ps, p.ty_name) {
        Err(ErrorView::DuplicateParameter { name: p.ty_name })
    } else {
        Ok((ms, ps.push(p), p))
    }
}

/// What resolving a parameter declaration yields: a plain string stays a
/// string (even when enumerated); an array resolves through the array rules,
/// collapsing to the synthesized child model's name when one was registered
/// under `ty_name`; any other inline shape is resolved as a model named
/// `ty_name`. A schema given by reference, or a content map, is a fatal
/// error.
pub open spec fn spec_parameter_discover(
    ms: Seq<ModelView>,
    ps: Seq<ParameterView>,
    ty_name: Seq<char>,
    d: ParameterDataView,
) -> Result<(Seq<ModelView>, Seq<ParameterView>, ParameterView), ErrorView> {
    let base = ParameterView {
        ty_name: ty_name,
        original_name: d.name,
        name: snake_of(d.name),
        safe_name: spec_safe_name(snake_of(d.name)),
        ty: TypeRefView::Text,
        description: d.description,
        required: d.required,
    };
    match d.format {
        ParameterFormatView::Content => Err(ErrorView::ParameterContent { name: d.name }),
        ParameterFormatView::Schema(sr) => match sr {
            RefView::Reference { .. } => Err(
                ErrorView::ParameterSchemaReference { name: d.name },
            ),
            RefView::Item(sub) => {
                let subv = *sub;
                match subv.shape {
                    ShapeView::Text { .. } => finish_parameter(
                        ms,
                        ps,
                        ParameterView { ty: TypeRefView::Text, ..base },
                    ),
                    ShapeView::Array { .. } => match spec_array_discover(ms, ty_name, subv) {
                        Ok((ms2, t)) => {
                            let ty = if t == TypeRefView::List(
                                Box::new(TypeRefView::Named(ty_name)),
                            ) {
                                TypeRefView::Named(ty_name)
                            } else {
                                t
                            };
                            finish_parameter(ms2, ps, ParameterView { ty: ty, ..base })
                        },
                        Err(e) => Err(e),
                    },
                    _ => match spec_model_discover(ms, ty_name, subv) {
                        Ok(ms2) => finish_parameter(
                            ms2,
                            ps,
                            ParameterView { ty: TypeRefView::Named(ty_name), ..base },
                        ),
                        Err(e) => Err(e),
                    },
                }
            },
        },
    }
}

impl Parameter {
    /// Resolves a parameter declaration into a typed, named parameter
    /// registered under `ty_name`, so an operation can later reference it by
    /// pointer instead of re-resolving it. Returns the parameter itself.
    pub fn discover(ctx: &mut Context, ty_name: &str, data: &ParameterData) -> (r: Result<
        Parameter,
        Error,
    >)
        requires
            old(ctx).wf(),
        ensures
            final(ctx).wf(),
            final(ctx).operations == old(ctx).operations,
            final(ctx).resources == old(ctx).resources,
            match r {
                Ok(p) => spec_parameter_discover(
                    old(ctx)@.models,
                    old(ctx)@.parameters,
                    ty_name@,
                    parameter_data_view(*data),
                ) == Ok::<_, ErrorView>(
                    (final(ctx)@.models, final(ctx)@.parameters, p.deep_view()),
                ),
                Err(e) => spec_parameter_discover(
                    old(ctx)@.models,
                    old(ctx)@.parameters,
                    ty_name@,
                    parameter_data_view(*data),
                ) == Err::<(Seq<ModelView>, Seq<ParameterView>, ParameterView), _>(e.deep_view()),
            },
    {
        let snake = to_snake_case(data.name.as_str());
        let mut parameter = Parameter {
            ty_name: ty_name.to_owned(),
            original_name: data.name.clone(),
            name: snake.clone(),
            safe_name: safe_name(snake.as_str()),
            ty: TypeRef::Text,
            description: clone_opt_text(&data.description),
            required: data.required,
        };
        match &data.format {
            ParameterFormat::Content => Err(
                Error::ParameterContent { name: data.name.clone() },
            ),
            ParameterFormat::Schema(sr) => match sr {
                SchemaRef::Reference { .. } => Err(
                    Error::ParameterSchemaReference { name: data.name.clone() },
                ),
                SchemaRef::Item(sub) => {
                    match &sub.shape {
                        SchemaShape::Text { .. } => {
                            match Parameter::add(ctx, parameter.duplicate()) {
                                Ok(_) => Ok(parameter),
                                Err(e) => Err(e),
                            }
                        },
                        SchemaShape::Array { .. } => {
                            match Array::discover(ctx, ty_name, sub) {
                                Ok(t) => {
                                    let is_self = t.is_list_of_named(ty_name);
                                    if is_self {
                                        parameter.ty = TypeRef::Named(ty_name.to_owned());
                                    } else {
                                        parameter.ty = t;
                                    }
                                    match Parameter::add(ctx, parameter.duplicate()) {
                                        Ok(_) => Ok(parameter),
                                        Err(e) => Err(e),
                                    }
                                },
                                Err(e) => Err(e),
                            }
                        },
                        _ => {
                            match Model::discover(ctx, ty_name, sub) {
                                Ok(_) => {
                                    parameter.ty = TypeRef::Named(ty_name.to_owned());
                                    match Parameter::add(ctx, parameter.duplicate()) {
                                        Ok(_) => Ok(parameter),
                                        Err(e) => Err(e),
                                    }
                                },
                                Err(e) => Err(e),
                            }
                        },
                    }
                },
            },
        }
    }
}

} // verus!
