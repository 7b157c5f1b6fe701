//! The input to resolution: a closed set of schema shapes. The resolver's
//! dispatch over these is exhaustive, so a new shape in the input format
//! forces a visible gap here rather than a silent fallback.

use vstd::prelude::*;

verus! {

/// One schema node: its annotations and its shape.
pub struct Schema {
    pub description: Option<String>,
    pub nullable: bool,
    pub shape: SchemaShape,
}

/// The closed set of schema shapes resolution understands.
pub enum SchemaShape {
    /// A character-string schema, possibly constrained to a closed value set.
    /// An absent literal (an explicit null in the value list) is kept so the
    /// extractor's filtering is part of the model.
    Text { enumeration: Vec<Option<String>> },
    /// An integer schema, possibly constrained to a closed value set.
    Integer { enumeration: Vec<Option<i64>> },
    /// A floating-point schema; resolution only asks whether it carries an
    /// enumeration constraint.
    Number { has_enumeration: bool },
    /// A boolean schema.
    Boolean,
    /// An object schema: which property names are required, and the declared
    /// properties in declaration order.
    Object { required: Vec<String>, properties: Vec<(String, SchemaRef)> },
    /// An array schema and its item schema, when one is declared.
    Array { items: Option<Box<SchemaRef>> },
    /// A composition: the concatenation of its branches' properties.
    AllOf { branches: Vec<SchemaRef> },
    /// A closed choice: one of its branches, as a tagged union.
    OneOf { branches: Vec<SchemaRef> },
}

/// A schema given inline or by a pointer-style reference.
pub enum SchemaRef {
    Reference { reference: String },
    Item(Box<Schema>),
}

/// The mathematical image of a `Schema`.
pub struct SchemaView {
    pub description: Option<Seq<char>>,
    pub nullable: bool,
    pub shape: ShapeView,
}

/// The mathematical image of a `SchemaShape`.
pub enum ShapeView {
    Text { enumeration: Seq<Option<Seq<char>>> },
    Integer { enumeration: Seq<Option<i64>> },
    Number { has_enumeration: bool },
    Boolean,
    Object { required: Seq<Seq<char>>, properties: Seq<(Seq<char>, RefView)> },
    Array { items: Option<Box<RefView>> },
    AllOf { branches: Seq<RefView> },
    OneOf { branches: Seq<RefView> },
}

/// The mathematical image of a `SchemaRef`.
pub enum RefView {
    Reference { reference: Seq<char> },
    Item(Box<SchemaView>),
}

pub open spec fn schema_view(s: Schema) -> SchemaView
    decreases s,
{
    SchemaView {
        description: s.description.deep_view(),
        nullable: s.nullable,
        shape: shape_view(s.shape),
    }
}

pub open spec fn shape_view(sh: SchemaShape) -> ShapeView
    decreases sh,
{
    match sh {
        SchemaShape::Text { enumeration } => ShapeView::Text {
            enumeration: enumeration.deep_view(),
        },
        SchemaShape::Integer { enumeration } => ShapeView::Integer {
            enumeration: enumeration.deep_view(),
        },
        SchemaShape::Number { has_enumeration } => ShapeView::Number { has_enumeration },
        SchemaShape::Boolean => ShapeView::Boolean,
        SchemaShape::Object { required, properties } => ShapeView::Object {
            required: required.deep_view(),
            properties: props_view(properties@),
        },
        SchemaShape::Array { items } => ShapeView::Array {
            items: match items {
                Option::None => Option::None,
                Option::Some(b) => Option::Some(Box::new(ref_view(*b))),
            },
        },
        SchemaShape::AllOf { branches } => ShapeView::AllOf { branches: refs_view(branches@) },
        SchemaShape::OneOf { branches } => ShapeView::OneOf { branches: refs_view(branches@) },
    }
}

/// A short description of a shape's kind, carried by unsupported-shape
/// errors so they name the offending shape besides the owning model.
pub open spec fn spec_shape_kind(sh: ShapeView) -> Seq<char> {
    match sh {
        ShapeView::Text { .. } => "string"@,
        ShapeView::Integer { .. } => "integer"@,
        ShapeView::Number { .. } => "number"@,
        ShapeView::Boolean => "boolean"@,
        ShapeView::Object { .. } => "object"@,
        ShapeView::Array { .. } => "array"@,
        ShapeView::AllOf { .. } => "allOf"@,
        ShapeView::OneOf { .. } => "oneOf"@,
    }
}

impl SchemaShape {
    /// The short description of this shape's kind.
    pub fn kind_name(&self) -> (r: &'static str)
        ensures
            r@ == spec_shape_kind(shape_view(*self)),
    {
        match self {
            SchemaShape::Text { .. } => "string",
            SchemaShape::Integer { .. } => "integer",
            SchemaShape::Number { .. } => "number",
            SchemaShape::Boolean => "boolean",
            SchemaShape::Object { .. } => "object",
            SchemaShape::Array { .. } => "array",
            SchemaShape::AllOf { .. } => "allOf",
            SchemaShape::OneOf { .. } => "oneOf",
        }
    }
}

pub open spec fn ref_view(r: SchemaRef) -> RefView
    decreases r,
{
    match r {
        SchemaRef::Reference { reference } => RefView::Reference { reference: reference@ },
        SchemaRef::Item(b) => RefView::Item(Box::new(schema_view(*b))),
    }
}

pub open spec fn props_view(ps: Seq<(String, SchemaRef)>) -> Seq<(Seq<char>, RefView)>
    decreases ps,
{
    if ps.len() == 0 {
        Seq::empty()
    } else {
        seq![(ps[0].0@, ref_view(ps[0].1))] + props_view(ps.drop_first())
    }
}

pub open spec fn refs_view(rs: Seq<SchemaRef>) -> Seq<RefView>
    decreases rs,
{
    if rs.len() == 0 {
        Seq::empty()
    } else {
        seq![ref_view(rs[0])] + refs_view(rs.drop_first())
    }
}

pub proof fn lemma_props_view(ps: Seq<(String, SchemaRef)>)
    ensures
        props_view(ps).len() == ps.len(),
        forall|i: int|
            0 <= i < ps.len() ==> #[trigger] props_view(ps)[i] == (ps[i].0@, ref_view(ps[i].1)),
    decreases ps,
{
    if ps.len() > 0 {
        lemma_props_view(ps.drop_first());
    }
}

pub proof fn lemma_refs_view(rs: Seq<SchemaRef>)
    ensures
        refs_view(rs).len() == rs.len(),
        forall|i: int| 0 <= i < rs.len() ==> #[trigger] refs_view(rs)[i] == ref_view(rs[i]),
    decreases rs,
{
    if rs.len() > 0 {
        lemma_refs_view(rs.drop_first());
    }
}

} // verus!
