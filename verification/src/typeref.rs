//! Type references: how a model, property or parameter names its type — a
//! primitive tag, the name of another model, or an ordered sequence of either.

use vstd::prelude::*;

verus! {

/// A reference to a type: a primitive, a registered model's name, or a list.
pub enum TypeRef {
    /// A plain character string.
    Text,
    /// A 64-bit signed integer.
    Integer,
    /// A floating-point number (carried as a tag only; resolution never
    /// computes with one).
    Number,
    /// A boolean.
    Boolean,
    /// A timestamp; substituted for a bare string when the model's name
    /// indicates a date-time semantic.
    DateTime,
    /// The name of a registered model.
    Named(String),
    /// An ordered sequence of the element type.
    List(Box<TypeRef>),
}

/// The mathematical image of a `TypeRef`.
pub enum TypeRefView {
    Text,
    Integer,
    Number,
    Boolean,
    DateTime,
    Named(Seq<char>),
    List(Box<TypeRefView>),
}

pub open spec fn type_ref_view(t: TypeRef) -> TypeRefView
    decreases t,
{
    match t {
        TypeRef::Text => TypeRefView::Text,
        TypeRef::Integer => TypeRefView::Integer,
        TypeRef::Number => TypeRefView::Number,
        TypeRef::Boolean => TypeRefView::Boolean,
        TypeRef::DateTime => TypeRefView::DateTime,
        TypeRef::Named(n) => TypeRefView::Named(n@),
        TypeRef::List(e) => TypeRefView::List(Box::new(type_ref_view(*e))),
    }
}

impl DeepView for TypeRef {
    type V = TypeRefView;

    open spec fn deep_view(&self) -> TypeRefView {
        type_ref_view(*self)
    }
}

impl TypeRef {
    /// The ordered-sequence type of `elem`.
    pub fn list_of(elem: TypeRef) -> (r: TypeRef)
        ensures
            r.deep_view() == TypeRefView::List(Box::new(elem.deep_view())),
    {
        let ghost ev = elem.deep_view();
        let r = TypeRef::List(Box::new(elem));
        proof {
            assert(r.deep_view() == TypeRefView::List(Box::new(ev)));
        }
        r
    }

    /// Whether this is exactly the ordered-sequence type of the model named
    /// `name`.
    pub fn is_list_of_named(&self, name: &str) -> (r: bool)
        ensures
            r == (self.deep_view() == TypeRefView::List(Box::new(TypeRefView::Named(name@)))),
    {
        match self {
            TypeRef::List(elem) => {
                proof {
                    assert(self.deep_view() == TypeRefView::List(
                        Box::new(type_ref_view(**elem)),
                    ));
                }
                match &**elem {
                    TypeRef::Named(n) => *n == name.to_owned(),
                    _ => false,
                }
            },
            _ => false,
        }
    }

    /// An exact copy; spelled out so that the relation between the copy and
    /// the original is part of the contract.
    pub fn duplicate(&self) -> (r: TypeRef)
        ensures
            r.deep_view() == self.deep_view(),
        decreases *self,
    {
        match self {
            TypeRef::Text => TypeRef::Text,
            TypeRef::Integer => TypeRef::Integer,
            TypeRef::Number => TypeRef::Number,
            TypeRef::Boolean => TypeRef::Boolean,
            TypeRef::DateTime => TypeRef::DateTime,
            TypeRef::Named(n) => TypeRef::Named(n.clone()),
            TypeRef::List(e) => TypeRef::List(Box::new(e.duplicate())),
        }
    }
}

} // verus!
