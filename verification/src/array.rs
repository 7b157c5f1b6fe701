//! The array resolver: an array schema resolves to an ordered sequence of
//! its element type, synthesizing a child model for inline element shapes.

use vstd::prelude::*;
use crate::context::Context;
use crate::error::Error;
use crate::error::ErrorView;
use crate::model::Model;
use crate::model::ModelView;
use crate::reference::ref_name;
use crate::resolution::spec_array_discover;
use crate::schema::Schema;
use crate::schema::SchemaRef;
use crate::schema::SchemaShape;
use crate::schema::schema_view;
use crate::typeref::TypeRef;
use crate::typeref::TypeRefView;

verus! {

pub struct Array {}

impl Array {
    /// Resolves an array schema under `name`: the element is a reference, a
    /// bare primitive, or an inline enum- or object-shaped schema that is
    /// registered as a child model named `name`; anything else is a fatal
    /// error. Returns the ordered-sequence type of the element.
    pub fn discover(ctx: &mut Context, name: &str, schema: &Schema) -> (r: Result<TypeRef, Error>)
        requires
            old(ctx).wf(),
        ensures
            final(ctx).wf(),
            final(ctx).parameters == old(ctx).parameters,
            final(ctx).operations == old(ctx).operations,
            final(ctx).resources == old(ctx).resources,
            match r {
                Ok(t) => spec_array_discover(old(ctx)@.models, name@, schema_view(*schema))
                    == Ok::<_, ErrorView>((final(ctx)@.models, t.deep_view())),
                Err(e) => spec_array_discover(old(ctx)@.models, name@, schema_view(*schema))
                    == Err::<(Seq<ModelView>, TypeRefView), _>(e.deep_view()),
            },
        decreases schema_view(*schema), 0int,
    {
        match &schema.shape {
            SchemaShape::Array { items } => {
                match items {
                    Option::None => Err(Error::MissingArrayItems { name: name.to_owned() }),
                    Option::Some(b) => {
                        match &**b {
                            SchemaRef::Reference { reference } => {
                                match ref_name(reference.as_str()) {
                                    Ok(rn) => Ok(TypeRef::list_of(TypeRef::Named(rn))),
                                    Err(e) => Err(e),
                                }
                            },
                            SchemaRef::Item(sub) => {
                                match &sub.shape {
                                    SchemaShape::Text { enumeration } => {
                                        if enumeration.len() == 0 {
                                            Ok(TypeRef::list_of(TypeRef::Text))
                                        } else {
                                            match Model::discover(ctx, name, sub) {
                                                Ok(_) => Ok(
                                                    TypeRef::list_of(TypeRef::Named(name.to_owned())),
                                                ),
                                                Err(e) => Err(e),
                                            }
                                        }
                                    },
                                    SchemaShape::Integer { enumeration } => {
                                        if enumeration.len() == 0 {
                                            Ok(TypeRef::list_of(TypeRef::Integer))
                                        } else {
                                            match Model::discover(ctx, name, sub) {
                                                Ok(_) => Ok(
                                                    TypeRef::list_of(TypeRef::Named(name.to_owned())),
                                                ),
                                                Err(e) => Err(e),
                                            }
                                        }
                                    },
                                    SchemaShape::Object { .. } => {
                                        match Model::discover(ctx, name, sub) {
                                            Ok(_) => Ok(
                                                TypeRef::list_of(TypeRef::Named(name.to_owned())),
                                            ),
                                            Err(e) => Err(e),
                                        }
                                    },
                                    _ => Err(
                                        Error::UnhandledArrayType {
                                            name: name.to_owned(),
                                            kind: sub.shape.kind_name().to_owned(),
                                        },
                                    ),
                                }
                            },
                        }
                    },
                }
            },
            _ => Err(Error::NotAnArray { name: name.to_owned() }),
        }
    }
}

} // verus!
