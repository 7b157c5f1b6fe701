//! The mathematical model of resolution: what discovering a schema under a
//! name does to the model registry, stated as recursive functions over the
//! views. The executable resolver is proved to compute exactly these
//! functions, so resolving the same input twice yields the same registries.

use vstd::prelude::*;
use crate::context::contains_model_name;
use crate::context::lookup_model;
use crate::enumeration::EnumerationView;
use crate::enumeration::spec_enumeration_discover;
use crate::error::ErrorView;
use crate::model::ModelView;
use crate::naming::snake_of;
use crate::naming::spec_safe_name;
use crate::naming::upper_camel_of;
use crate::property::PropertyView;
use crate::reference::spec_ref_name;
use crate::schema::RefView;
use crate::schema::SchemaView;
use crate::schema::ShapeView;
use crate::schema::spec_shape_kind;
use crate::typeref::TypeRefView;

verus! {

/// How many labels the alphabet for inline `oneOf` branches has.
pub open spec fn label_count() -> int {
    24
}

/// The fixed, ordered label alphabet used to name inline `oneOf` branches.
pub open spec fn spec_label(g: int) -> Seq<char> {
    if g == 0 {
        "Alpha"@
    } else if g == 1 {
        "Beta"@
    } else if g == 2 {
        "Gamma"@
    } else if g == 3 {
        "Delta"@
    } else if g == 4 {
        "Epsilon"@
    } else if g == 5 {
        "Zeta"@
    } else if g == 6 {
        "Eta"@
    } else if g == 7 {
        "Theta"@
    } else if g == 8 {
        "Iota"@
    } else if g == 9 {
        "Kappa"@
    } else if g == 10 {
        "Lambda"@
    } else if g == 11 {
        "Mu"@
    } else if g == 12 {
        "Nu"@
    } else if g == 13 {
        "Xi"@
    } else if g == 14 {
        "Omicron"@
    } else if g == 15 {
        "Pi"@
    } else if g == 16 {
        "Rho"@
    } else if g == 17 {
        "Sigma"@
    } else if g == 18 {
        "Tau"@
    } else if g == 19 {
        "Upsilon"@
    } else if g == 20 {
        "Phi"@
    } else if g == 21 {
        "Chi"@
    } else if g == 22 {
        "Psi"@
    } else {
        "Omega"@
    }
}

/// The label alphabet, executable form.
pub fn label_at(g: usize) -> (r: &'static str)
    requires
        g < label_count(),
    ensures
        r@ == spec_label(g as int),
{
    match g {
        0 => "Alpha",
        1 => "Beta",
        2 => "Gamma",
        3 => "Delta",
        4 => "Epsilon",
        5 => "Zeta",
        6 => "Eta",
        7 => "Theta",
        8 => "Iota",
        9 => "Kappa",
        10 => "Lambda",
        11 => "Mu",
        12 => "Nu",
        13 => "Xi",
        14 => "Omicron",
        15 => "Pi",
        16 => "Rho",
        17 => "Sigma",
        18 => "Tau",
        19 => "Upsilon",
        20 => "Phi",
        21 => "Chi",
        22 => "Psi",
        _ => "Omega",
    }
}

/// The model every discovery starts from: named, placed under its
/// snake-cased path, carrying the schema's description, with nothing
/// resolved yet.
pub open spec fn base_model(name: Seq<char>, s: SchemaView) -> ModelView {
    ModelView {
        path: snake_of(name),
        name: name,
        ty: Option::None,
        description: s.description,
        properties: Seq::empty(),
        enumeration: Option::None,
    }
}

/// A model's validity: exactly one of the alias type, the enumeration and a
/// non-empty property list is set. A model with none of them — or more than
/// one — is invalid and is never registered.
pub open spec fn model_form_wf(m: ModelView) -> bool {
    ||| (m.ty is Some && m.enumeration is None && m.properties.len() == 0)
    ||| (m.ty is None && m.enumeration is Some && m.properties.len() == 0)
    ||| (m.ty is None && m.enumeration is None && m.properties.len() > 0)
}

/// Every registered model is valid.
pub open spec fn models_well_formed(ms: Seq<ModelView>) -> bool {
    forall|i: int| 0 <= i < ms.len() ==> model_form_wf(#[trigger] ms[i])
}

/// Registration: refuses a model that does not set exactly one of alias,
/// enumeration and properties, then appends it, unless its name is already
/// taken — a duplicate name is a fatal error, never an overwrite.
pub open spec fn finish_model(ms: Seq<ModelView>, m: ModelView) -> Result<Seq<ModelView>, ErrorView> {
    if !model_form_wf(m) {
        Err(ErrorView::InvalidModel { name: m.name })
    } else if contains_model_name(ms, m.name) {
        Err(ErrorView::DuplicateModel { name: m.name })
    } else {
        Ok(ms.push(m))
    }
}

/// What discovering schema `s` under `name` does to the model registry:
/// registers the models synthesized for nested shapes, then the named model
/// itself, resolved by the first applicable rule — enumeration, primitive
/// alias, array alias, struct, `allOf` concatenation, or `oneOf` tagged
/// union. A shape without a rule, and a model that would set neither an
/// alias, nor an enumeration, nor any property, are fatal errors.
pub open spec fn spec_model_discover(
    ms: Seq<ModelView>,
    name: Seq<char>,
    s: SchemaView,
) -> Result<Seq<ModelView>, ErrorView>
    decreases s, 1int,
{
    let base = base_model(name, s);
    match s.shape {
        ShapeView::Text { enumeration } => {
            let e = spec_enumeration_discover(s.shape);
            let m = if e is Some {
                ModelView { enumeration: e, ..base }
            } else if name == "DateTime"@ {
                ModelView { ty: Option::Some(TypeRefView::DateTime), ..base }
            } else {
                ModelView { ty: Option::Some(TypeRefView::Text), ..base }
            };
            finish_model(ms, m)
        },
        ShapeView::Integer { enumeration } => {
            let e = spec_enumeration_discover(s.shape);
            let m = if e is Some {
                ModelView { enumeration: e, ..base }
            } else {
                ModelView { ty: Option::Some(TypeRefView::Integer), ..base }
            };
            finish_model(ms, m)
        },
        ShapeView::Array { items } => {
            match spec_array_discover(ms, upper_camel_of(name + "_Item"@), s) {
                Ok((ms2, t)) => finish_model(ms2, ModelView { ty: Option::Some(t), ..base }),
                Err(e) => Err(e),
            }
        },
        ShapeView::Object { required, properties } => {
            match spec_properties_discover(ms, name, required, properties, Seq::empty()) {
                Ok((ms2, props)) => finish_model(ms2, ModelView { properties: props, ..base }),
                Err(e) => Err(e),
            }
        },
        ShapeView::AllOf { branches } => {
            match spec_allof_discover(ms, name, branches, base) {
                Ok((ms2, m)) => finish_model(ms2, m),
                Err(e) => Err(e),
            }
        },
        ShapeView::OneOf { branches } => {
            match spec_oneof_discover(ms, name, branches, 0, Seq::empty()) {
                Ok((ms2, members)) => finish_model(
                    ms2,
                    ModelView { enumeration: Option::Some(EnumerationView::Union(members)), ..base },
                ),
                Err(e) => Err(e),
            }
        },
        _ => Err(ErrorView::UnhandledKind { name: name, kind: spec_shape_kind(s.shape) }),
    }
}

/// What resolving an array schema yields: the element type — a referenced
/// model, a bare primitive, or a newly synthesized child model under `name`
/// for an inline enum- or object-shaped item — wrapped as an ordered
/// sequence, plus the registry grown by whatever the item resolution added.
pub open spec fn spec_array_discover(
    ms: Seq<ModelView>,
    name: Seq<char>,
    s: SchemaView,
) -> Result<(Seq<ModelView>, TypeRefView), ErrorView>
    decreases s, 0int,
{
    match s.shape {
        ShapeView::Array { items } => {
            match items {
                Option::None => Err(ErrorView::MissingArrayItems { name: name }),
                Option::Some(r) => match *r {
                    RefView::Reference { reference } => match spec_ref_name(reference) {
                        Ok(rn) => Ok(
                            (ms, TypeRefView::List(Box::new(TypeRefView::Named(rn)))),
                        ),
                        Err(e) => Err(e),
                    },
                    RefView::Item(sub) => {
                        let subv = *sub;
                        match subv.shape {
                            ShapeView::Text { enumeration } => if enumeration.len() == 0 {
                                Ok((ms, TypeRefView::List(Box::new(TypeRefView::Text))))
                            } else {
                                match spec_model_discover(ms, name, subv) {
                                    Ok(ms2) => Ok(
                                        (
                                            ms2,
                                            TypeRefView::List(
                                                Box::new(TypeRefView::Named(name)),
                                            ),
                                        ),
                                    ),
                                    Err(e) => Err(e),
                                }
                            },
                            ShapeView::Integer { enumeration } => if enumeration.len() == 0 {
                                Ok((ms, TypeRefView::List(Box::new(TypeRefView::Integer))))
                            } else {
                                match spec_model_discover(ms, name, subv) {
                                    Ok(ms2) => Ok(
                                        (
                                            ms2,
                                            TypeRefView::List(
                                                Box::new(TypeRefView::Named(name)),
                                            ),
                                        ),
                                    ),
                                    Err(e) => Err(e),
                                }
                            },
                            ShapeView::Object { .. } => match spec_model_discover(
                                ms,
                                name,
                                subv,
                            ) {
                                Ok(ms2) => Ok(
                                    (ms2, TypeRefView::List(Box::new(TypeRefView::Named(name)))),
                                ),
                                Err(e) => Err(e),
                            },
                            _ => Err(
                                ErrorView::UnhandledArrayType {
                                    name: name,
                                    kind: spec_shape_kind(subv.shape),
                                },
                            ),
                        }
                    },
                },
            }
        },
        _ => Err(ErrorView::NotAnArray { name: name }),
    }
}

/// What resolving one declared property yields: the property, typed by the
/// same rules as a top-level model with a synthesized child name of
/// `{owner}_{property}` for any inline nested shape, plus the registry grown
/// by whatever that synthesis added.
pub open spec fn spec_property_resolve(
    ms: Seq<ModelView>,
    owner: Seq<char>,
    required: Seq<Seq<char>>,
    pname: Seq<char>,
    pref: RefView,
) -> Result<(Seq<ModelView>, PropertyView), ErrorView>
    decreases pref, 2int,
{
    let base = PropertyView {
        name: pname,
        safe_name: spec_safe_name(snake_of(pname)),
        ty: TypeRefView::Text,
        description: Option::None,
        required: required.contains(pname),
        nullable: false,
    };
    match pref {
        RefView::Reference { reference } => match spec_ref_name(reference) {
            Ok(rn) => Ok((ms, PropertyView { ty: TypeRefView::Named(rn), ..base })),
            Err(e) => Err(e),
        },
        RefView::Item(sub) => {
            let subv = *sub;
            let child = upper_camel_of(owner + "_"@ + pname);
            let base2 = PropertyView {
                nullable: subv.nullable,
                description: subv.description,
                ..base
            };
            match subv.shape {
                ShapeView::Text { enumeration } => if enumeration.len() == 0 {
                    Ok((ms, PropertyView { ty: TypeRefView::Text, ..base2 }))
                } else {
                    match spec_model_discover(ms, child, subv) {
                        Ok(ms2) => Ok(
                            (ms2, PropertyView { ty: TypeRefView::Named(child), ..base2 }),
                        ),
                        Err(e) => Err(e),
                    }
                },
                ShapeView::Integer { enumeration } => if enumeration.len() == 0 {
                    Ok((ms, PropertyView { ty: TypeRefView::Integer, ..base2 }))
                } else {
                    match spec_model_discover(ms, child, subv) {
                        Ok(ms2) => Ok(
                            (ms2, PropertyView { ty: TypeRefView::Named(child), ..base2 }),
                        ),
                        Err(e) => Err(e),
                    }
                },
                ShapeView::Number { has_enumeration } => if !has_enumeration {
                    Ok((ms, PropertyView { ty: TypeRefView::Number, ..base2 }))
                } else {
                    match spec_model_discover(ms, child, subv) {
                        Ok(ms2) => Ok(
                            (ms2, PropertyView { ty: TypeRefView::Named(child), ..base2 }),
                        ),
                        Err(e) => Err(e),
                    }
                },
                ShapeView::Boolean => Ok((ms, PropertyView { ty: TypeRefView::Boolean, ..base2 })),
                ShapeView::Array { .. } => match spec_array_discover(ms, child, subv) {
                    Ok((ms2, t)) => Ok((ms2, PropertyView { ty: t, ..base2 })),
                    Err(e) => Err(e),
                },
                ShapeView::Object { .. } => match spec_model_discover(ms, child, subv) {
                    Ok(ms2) => Ok((ms2, PropertyView { ty: TypeRefView::Named(child), ..base2 })),
                    Err(e) => Err(e),
                },
                ShapeView::AllOf { .. } => match spec_model_discover(ms, child, subv) {
                    Ok(ms2) => Ok((ms2, PropertyView { ty: TypeRefView::Named(child), ..base2 })),
                    Err(e) => Err(e),
                },
                ShapeView::OneOf { .. } => match spec_model_discover(ms, child, subv) {
                    Ok(ms2) => Ok((ms2, PropertyView { ty: TypeRefView::Named(child), ..base2 })),
                    Err(e) => Err(e),
                },
            }
        },
    }
}

/// Resolving declared properties, in declaration order, accumulating onto
/// `acc`: the final property list and the registry grown by every nested
/// synthesis.
pub open spec fn spec_properties_discover(
    ms: Seq<ModelView>,
    owner: Seq<char>,
    required: Seq<Seq<char>>,
    props: Seq<(Seq<char>, RefView)>,
    acc: Seq<PropertyView>,
) -> Result<(Seq<ModelView>, Seq<PropertyView>), ErrorView>
    decreases props, 3int,
{
    if props.len() == 0 {
        Ok((ms, acc))
    } else {
        match spec_property_resolve(ms, owner, required, props[0].0, props[0].1) {
            Ok((ms2, p)) => spec_properties_discover(
                ms2,
                owner,
                required,
                props.drop_first(),
                acc.push(p),
            ),
            Err(e) => Err(e),
        }
    }
}

/// Resolving `allOf` branches in order onto the accumulated model: a
/// reference branch copies the already-registered target model's properties
/// (a forward reference is a fatal error); an inline object branch appends
/// its resolved properties as if it were a top-level object; any other
/// inline shape is a fatal error. Property name collisions across branches
/// are kept, not deduplicated.
pub open spec fn spec_allof_discover(
    ms: Seq<ModelView>,
    name: Seq<char>,
    branches: Seq<RefView>,
    acc: ModelView,
) -> Result<(Seq<ModelView>, ModelView), ErrorView>
    decreases branches, 3int,
{
    if branches.len() == 0 {
        Ok((ms, acc))
    } else {
        match branches[0] {
            RefView::Reference { reference } => match spec_ref_name(reference) {
                Ok(rn) => match lookup_model(ms, rn) {
                    Option::Some(target) => spec_allof_discover(
                        ms,
                        name,
                        branches.drop_first(),
                        ModelView { properties: acc.properties + target.properties, ..acc },
                    ),
                    Option::None => Err(ErrorView::UnresolvedReference { reference: reference }),
                },
                Err(e) => Err(e),
            },
            RefView::Item(sub) => {
                let subv = *sub;
                match subv.shape {
                    ShapeView::Object { required, properties } => {
                        match spec_properties_discover(
                            ms,
                            name,
                            required,
                            properties,
                            acc.properties,
                        ) {
                            Ok((ms2, props)) => spec_allof_discover(
                                ms2,
                                name,
                                branches.drop_first(),
                                ModelView { properties: props, ..acc },
                            ),
                            Err(e) => Err(e),
                        }
                    },
                    _ => Err(
                        ErrorView::UnhandledAllOfType {
                            name: name,
                            kind: spec_shape_kind(subv.shape),
                        },
                    ),
                }
            },
        }
    }
}

/// Resolving `oneOf` branches in order: a reference branch contributes its
/// target name and consumes no label; an inline branch is synthesized as a
/// child model named with the next unused label of the alphabet, which only
/// then advances. Running out of labels is a fatal error.
pub open spec fn spec_oneof_discover(
    ms: Seq<ModelView>,
    parent: Seq<char>,
    branches: Seq<RefView>,
    g: int,
    acc: Seq<Seq<char>>,
) -> Result<(Seq<ModelView>, Seq<Seq<char>>), ErrorView>
    decreases branches, 3int,
{
    if branches.len() == 0 {
        Ok((ms, acc))
    } else {
        match branches[0] {
            RefView::Reference { reference } => match spec_ref_name(reference) {
                Ok(rn) => spec_oneof_discover(ms, parent, branches.drop_first(), g, acc.push(rn)),
                Err(e) => Err(e),
            },
            RefView::Item(sub) => {
                if g >= label_count() {
                    Err(ErrorView::LabelsExhausted { name: parent })
                } else {
                    let member = upper_camel_of(parent + "_"@ + spec_label(g));
                    match spec_model_discover(ms, member, *sub) {
                        Ok(ms2) => spec_oneof_discover(
                            ms2,
                            parent,
                            branches.drop_first(),
                            g + 1,
                            acc.push(member),
                        ),
                        Err(e) => Err(e),
                    }
                }
            },
        }
    }
}

proof fn lemma_prefix_refl(a: Seq<ModelView>)
    ensures
        a.is_prefix_of(a),
{
    assert(a =~= a.subrange(0, a.len() as int));
}

proof fn lemma_prefix_push(a: Seq<ModelView>, m: ModelView)
    ensures
        a.is_prefix_of(a.push(m)),
{
    assert(a =~= a.push(m).subrange(0, a.len() as int));
}

proof fn lemma_prefix_trans(a: Seq<ModelView>, b: Seq<ModelView>, c: Seq<ModelView>)
    requires
        a.is_prefix_of(b),
        b.is_prefix_of(c),
    ensures
        a.is_prefix_of(c),
{
    assert forall|i: int| 0 <= i < a.len() implies a[i] == c.subrange(0, a.len() as int)[i] by {
        assert(a[i] == b.subrange(0, a.len() as int)[i]);
        assert(b[i] == c.subrange(0, b.len() as int)[i]);
    }
    assert(a =~= c.subrange(0, a.len() as int));
}

/// The registry is append-only: whatever model resolution succeeds on, every
/// previously registered model is still there, at its old position,
/// unchanged — resolution only appends in discovery order.
pub proof fn lemma_model_discover_appends(ms: Seq<ModelView>, name: Seq<char>, s: SchemaView)
    ensures
        spec_model_discover(ms, name, s) matches Ok(ms2) ==> ms.is_prefix_of(ms2),
    decreases s, 1int,
{
    lemma_prefix_refl(ms);
    let base = base_model(name, s);
    match s.shape {
        ShapeView::Text { .. } => {
            if spec_model_discover(ms, name, s) is Ok {
                lemma_prefix_push(ms, spec_model_discover(ms, name, s)->Ok_0.last());
            }
        },
        ShapeView::Integer { .. } => {
            if spec_model_discover(ms, name, s) is Ok {
                lemma_prefix_push(ms, spec_model_discover(ms, name, s)->Ok_0.last());
            }
        },
        ShapeView::Array { .. } => {
            lemma_array_discover_appends(ms, upper_camel_of(name + "_Item"@), s);
            if let Ok((ms2, t)) = spec_array_discover(ms, upper_camel_of(name + "_Item"@), s) {
                if !contains_model_name(ms2, name) {
                    lemma_prefix_push(ms2, ModelView { ty: Option::Some(t), ..base });
                    lemma_prefix_trans(
                        ms,
                        ms2,
                        ms2.push(ModelView { ty: Option::Some(t), ..base }),
                    );
                }
            }
        },
        ShapeView::Object { required, properties } => {
            lemma_properties_discover_appends(ms, name, required, properties, Seq::empty());
            if let Ok((ms2, props)) = spec_properties_discover(
                ms,
                name,
                required,
                properties,
                Seq::empty(),
            ) {
                if !contains_model_name(ms2, name) {
                    lemma_prefix_push(ms2, ModelView { properties: props, ..base });
                    lemma_prefix_trans(
                        ms,
                        ms2,
                        ms2.push(ModelView { properties: props, ..base }),
                    );
                }
            }
        },
        ShapeView::AllOf { branches } => {
            lemma_allof_discover_appends(ms, name, branches, base);
            if let Ok((ms2, m)) = spec_allof_discover(ms, name, branches, base) {
                if !contains_model_name(ms2, m.name) {
                    lemma_prefix_push(ms2, m);
                    lemma_prefix_trans(ms, ms2, ms2.push(m));
                }
            }
        },
        ShapeView::OneOf { branches } => {
            lemma_oneof_discover_appends(ms, name, branches, 0, Seq::empty());
            if let Ok((ms2, members)) = spec_oneof_discover(ms, name, branches, 0, Seq::empty()) {
                let m = ModelView {
                    enumeration: Option::Some(EnumerationView::Union(members)),
                    ..base
                };
                if !contains_model_name(ms2, m.name) {
                    lemma_prefix_push(ms2, m);
                    lemma_prefix_trans(ms, ms2, ms2.push(m));
                }
            }
        },
        _ => {},
    }
}

pub proof fn lemma_array_discover_appends(ms: Seq<ModelView>, name: Seq<char>, s: SchemaView)
    ensures
        spec_array_discover(ms, name, s) matches Ok((ms2, t)) ==> ms.is_prefix_of(ms2),
    decreases s, 0int,
{
    lemma_prefix_refl(ms);
    match s.shape {
        ShapeView::Array { items } => match items {
            Option::Some(r) => match *r {
                RefView::Item(sub) => {
                    lemma_model_discover_appends(ms, name, *sub);
                },
                _ => {},
            },
            _ => {},
        },
        _ => {},
    }
}

pub proof fn lemma_property_resolve_appends(
    ms: Seq<ModelView>,
    owner: Seq<char>,
    required: Seq<Seq<char>>,
    pname: Seq<char>,
    pref: RefView,
)
    ensures
        spec_property_resolve(ms, owner, required, pname, pref) matches Ok((ms2, p))
            ==> ms.is_prefix_of(ms2),
    decreases pref, 2int,
{
    lemma_prefix_refl(ms);
    match pref {
        RefView::Item(sub) => {
            let subv = *sub;
            let child = upper_camel_of(owner + "_"@ + pname);
            lemma_model_discover_appends(ms, child, subv);
            lemma_array_discover_appends(ms, child, subv);
        },
        _ => {},
    }
}

pub proof fn lemma_properties_discover_appends(
    ms: Seq<ModelView>,
    owner: Seq<char>,
    required: Seq<Seq<char>>,
    props: Seq<(Seq<char>, RefView)>,
    acc: Seq<PropertyView>,
)
    ensures
        spec_properties_discover(ms, owner, required, props, acc) matches Ok((ms2, ps))
            ==> ms.is_prefix_of(ms2),
    decreases props, 3int,
{
    lemma_prefix_refl(ms);
    if props.len() > 0 {
        lemma_property_resolve_appends(ms, owner, required, props[0].0, props[0].1);
        if let Ok((ms1, p)) = spec_property_resolve(ms, owner, required, props[0].0, props[0].1) {
            lemma_properties_discover_appends(
                ms1,
                owner,
                required,
                props.drop_first(),
                acc.push(p),
            );
            if let Ok((ms2, _ps)) = spec_properties_discover(
                ms1,
                owner,
                required,
                props.drop_first(),
                acc.push(p),
            ) {
                lemma_prefix_trans(ms, ms1, ms2);
            }
        }
    }
}

pub proof fn lemma_allof_discover_appends(
    ms: Seq<ModelView>,
    name: Seq<char>,
    branches: Seq<RefView>,
    acc: ModelView,
)
    ensures
        spec_allof_discover(ms, name, branches, acc) matches Ok((ms2, m))
            ==> ms.is_prefix_of(ms2),
    decreases branches, 3int,
{
    lemma_prefix_refl(ms);
    if branches.len() > 0 {
        match branches[0] {
            RefView::Reference { reference } => {
                if let Ok(rn) = spec_ref_name(reference) {
                    if let Option::Some(target) = lookup_model(ms, rn) {
                        lemma_allof_discover_appends(
                            ms,
                            name,
                            branches.drop_first(),
                            ModelView { properties: acc.properties + target.properties, ..acc },
                        );
                    }
                }
            },
            RefView::Item(sub) => {
                let subv = *sub;
                match subv.shape {
                    ShapeView::Object { required, properties } => {
                        lemma_properties_discover_appends(
                            ms,
                            name,
                            required,
                            properties,
                            acc.properties,
                        );
                        if let Ok((ms1, props)) = spec_properties_discover(
                            ms,
                            name,
                            required,
                            properties,
                            acc.properties,
                        ) {
                            lemma_allof_discover_appends(
                                ms1,
                                name,
                                branches.drop_first(),
                                ModelView { properties: props, ..acc },
                            );
                            if let Ok((ms2, _m)) = spec_allof_discover(
                                ms1,
                                name,
                                branches.drop_first(),
                                ModelView { properties: props, ..acc },
                            ) {
                                lemma_prefix_trans(ms, ms1, ms2);
                            }
                        }
                    },
                    _ => {},
                }
            },
        }
    }
}

pub proof fn lemma_oneof_discover_appends(
    ms: Seq<ModelView>,
    parent: Seq<char>,
    branches: Seq<RefView>,
    g: int,
    acc: Seq<Seq<char>>,
)
    ensures
        spec_oneof_discover(ms, parent, branches, g, acc) matches Ok((ms2, members))
            ==> ms.is_prefix_of(ms2),
    decreases branches, 3int,
{
    lemma_prefix_refl(ms);
    if branches.len() > 0 {
        match branches[0] {
            RefView::Reference { reference } => {
                if let Ok(rn) = spec_ref_name(reference) {
                    lemma_oneof_discover_appends(
                        ms,
                        parent,
                        branches.drop_first(),
                        g,
                        acc.push(rn),
                    );
                }
            },
            RefView::Item(sub) => {
                if g < label_count() {
                    let member = upper_camel_of(parent + "_"@ + spec_label(g));
                    lemma_model_discover_appends(ms, member, *sub);
                    if let Ok(ms1) = spec_model_discover(ms, member, *sub) {
                        lemma_oneof_discover_appends(
                            ms1,
                            parent,
                            branches.drop_first(),
                            g + 1,
                            acc.push(member),
                        );
                        if let Ok((ms2, _members)) = spec_oneof_discover(
                            ms1,
                            parent,
                            branches.drop_first(),
                            g + 1,
                            acc.push(member),
                        ) {
                            lemma_prefix_trans(ms, ms1, ms2);
                        }
                    }
                }
            },
        }
    }
}

proof fn lemma_wf_push(ms: Seq<ModelView>, m: ModelView)
    requires
        models_well_formed(ms),
        model_form_wf(m),
    ensures
        models_well_formed(ms.push(m)),
{
    assert forall|i: int| 0 <= i < ms.push(m).len() implies model_form_wf(
        #[trigger] ms.push(m)[i],
    ) by {
        if i < ms.len() {
            assert(model_form_wf(ms[i]));
        } else {
            assert(ms.push(m)[i] == m);
        }
    }
}

/// Every model resolution registers is valid: it sets exactly one of the
/// alias type, the enumeration and a non-empty property list (registration
/// refuses anything else), so a well-formed registry stays well-formed
/// through any successful discovery.
pub proof fn lemma_model_discover_well_formed(ms: Seq<ModelView>, name: Seq<char>, s: SchemaView)
    ensures
        spec_model_discover(ms, name, s) matches Ok(ms2) ==> (models_well_formed(ms)
            ==> models_well_formed(ms2)),
    decreases s, 1int,
{
    let base = base_model(name, s);
    match s.shape {
        ShapeView::Text { .. } => {
            if spec_model_discover(ms, name, s) is Ok && models_well_formed(ms) {
                lemma_wf_push(ms, spec_model_discover(ms, name, s)->Ok_0.last());
            }
        },
        ShapeView::Integer { .. } => {
            if spec_model_discover(ms, name, s) is Ok && models_well_formed(ms) {
                lemma_wf_push(ms, spec_model_discover(ms, name, s)->Ok_0.last());
            }
        },
        ShapeView::Array { .. } => {
            lemma_array_discover_well_formed(ms, upper_camel_of(name + "_Item"@), s);
            if let Ok((ms2, t)) = spec_array_discover(ms, upper_camel_of(name + "_Item"@), s) {
                let m = ModelView { ty: Option::Some(t), ..base };
                if finish_model(ms2, m) is Ok && models_well_formed(ms) {
                    lemma_wf_push(ms2, m);
                }
            }
        },
        ShapeView::Object { required, properties } => {
            lemma_properties_discover_well_formed(ms, name, required, properties, Seq::empty());
            if let Ok((ms2, props)) = spec_properties_discover(
                ms,
                name,
                required,
                properties,
                Seq::empty(),
            ) {
                let m = ModelView { properties: props, ..base };
                if finish_model(ms2, m) is Ok && models_well_formed(ms) {
                    lemma_wf_push(ms2, m);
                }
            }
        },
        ShapeView::AllOf { branches } => {
            lemma_allof_discover_well_formed(ms, name, branches, base);
            if let Ok((ms2, m)) = spec_allof_discover(ms, name, branches, base) {
                if finish_model(ms2, m) is Ok && models_well_formed(ms) {
                    lemma_wf_push(ms2, m);
                }
            }
        },
        ShapeView::OneOf { branches } => {
            lemma_oneof_discover_well_formed(ms, name, branches, 0, Seq::empty());
            if let Ok((ms2, members)) = spec_oneof_discover(ms, name, branches, 0, Seq::empty()) {
                let m = ModelView {
                    enumeration: Option::Some(EnumerationView::Union(members)),
                    ..base
                };
                if finish_model(ms2, m) is Ok && models_well_formed(ms) {
                    lemma_wf_push(ms2, m);
                }
            }
        },
        _ => {},
    }
}

pub proof fn lemma_array_discover_well_formed(ms: Seq<ModelView>, name: Seq<char>, s: SchemaView)
    ensures
        spec_array_discover(ms, name, s) matches Ok((ms2, t)) ==> (models_well_formed(ms)
            ==> models_well_formed(ms2)),
    decreases s, 0int,
{
    match s.shape {
        ShapeView::Array { items } => match items {
            Option::Some(r) => match *r {
                RefView::Item(sub) => {
                    lemma_model_discover_well_formed(ms, name, *sub);
                },
                _ => {},
            },
            _ => {},
        },
        _ => {},
    }
}

pub proof fn lemma_property_resolve_well_formed(
    ms: Seq<ModelView>,
    owner: Seq<char>,
    required: Seq<Seq<char>>,
    pname: Seq<char>,
    pref: RefView,
)
    ensures
        spec_property_resolve(ms, owner, required, pname, pref) matches Ok((ms2, p)) ==> (
        models_well_formed(ms) ==> models_well_formed(ms2)),
    decreases pref, 2int,
{
    match pref {
        RefView::Item(sub) => {
            let subv = *sub;
            let child = upper_camel_of(owner + "_"@ + pname);
            lemma_model_discover_well_formed(ms, child, subv);
            lemma_array_discover_well_formed(ms, child, subv);
        },
        _ => {},
    }
}

pub proof fn lemma_properties_discover_well_formed(
    ms: Seq<ModelView>,
    owner: Seq<char>,
    required: Seq<Seq<char>>,
    props: Seq<(Seq<char>, RefView)>,
    acc: Seq<PropertyView>,
)
    ensures
        spec_properties_discover(ms, owner, required, props, acc) matches Ok((ms2, ps)) ==> (
        models_well_formed(ms) ==> models_well_formed(ms2)),
    decreases props, 3int,
{
    if props.len() > 0 {
        lemma_property_resolve_well_formed(ms, owner, required, props[0].0, props[0].1);
        if let Ok((ms1, p)) = spec_property_resolve(ms, owner, required, props[0].0, props[0].1) {
            lemma_properties_discover_well_formed(
                ms1,
                owner,
                required,
                props.drop_first(),
                acc.push(p),
            );
        }
    }
}

pub proof fn lemma_allof_discover_well_formed(
    ms: Seq<ModelView>,
    name: Seq<char>,
    branches: Seq<RefView>,
    acc: ModelView,
)
    ensures
        spec_allof_discover(ms, name, branches, acc) matches Ok((ms2, m)) ==> (models_well_formed(
            ms,
        ) ==> models_well_formed(ms2)),
    decreases branches, 3int,
{
    if branches.len() > 0 {
        match branches[0] {
            RefView::Reference { reference } => {
                if let Ok(rn) = spec_ref_name(reference) {
                    if let Option::Some(target) = lookup_model(ms, rn) {
                        lemma_allof_discover_well_formed(
                            ms,
                            name,
                            branches.drop_first(),
                            ModelView { properties: acc.properties + target.properties, ..acc },
                        );
                    }
                }
            },
            RefView::Item(sub) => {
                let subv = *sub;
                match subv.shape {
                    ShapeView::Object { required, properties } => {
                        lemma_properties_discover_well_formed(
                            ms,
                            name,
                            required,
                            properties,
                            acc.properties,
                        );
                        if let Ok((ms1, props)) = spec_properties_discover(
                            ms,
                            name,
                            required,
                            properties,
                            acc.properties,
                        ) {
                            lemma_allof_discover_well_formed(
                                ms1,
                                name,
                                branches.drop_first(),
                                ModelView { properties: props, ..acc },
                            );
                        }
                    },
                    _ => {},
                }
            },
        }
    }
}

pub proof fn lemma_oneof_discover_well_formed(
    ms: Seq<ModelView>,
    parent: Seq<char>,
    branches: Seq<RefView>,
    g: int,
    acc: Seq<Seq<char>>,
)
    ensures
        spec_oneof_discover(ms, parent, branches, g, acc) matches Ok((ms2, members)) ==> (
        models_well_formed(ms) ==> models_well_formed(ms2)),
    decreases branches, 3int,
{
    if branches.len() > 0 {
        match branches[0] {
            RefView::Reference { reference } => {
                if let Ok(rn) = spec_ref_name(reference) {
                    lemma_oneof_discover_well_formed(
                        ms,
                        parent,
                        branches.drop_first(),
                        g,
                        acc.push(rn),
                    );
                }
            },
            RefView::Item(sub) => {
                if g < label_count() {
                    let member = upper_camel_of(parent + "_"@ + spec_label(g));
                    lemma_model_discover_well_formed(ms, member, *sub);
                    if let Ok(ms1) = spec_model_discover(ms, member, *sub) {
                        lemma_oneof_discover_well_formed(
                            ms1,
                            parent,
                            branches.drop_first(),
                            g + 1,
                            acc.push(member),
                        );
                    }
                }
            },
        }
    }
}

/// Determinism of model resolution: the outcome — the registry produced, or
/// the error — is a function of the starting registry, the name and the
/// schema alone, so resolving the same input twice yields identical model
/// sets (same names, same property order, same flags). The executable
/// resolver's contract pins its result to this function.
pub proof fn lemma_model_discover_deterministic(
    ms1: Seq<ModelView>,
    ms2: Seq<ModelView>,
    name1: Seq<char>,
    name2: Seq<char>,
    s1: SchemaView,
    s2: SchemaView,
)
    requires
        ms1 == ms2,
        name1 == name2,
        s1 == s2,
    ensures
        spec_model_discover(ms1, name1, s1) == spec_model_discover(ms2, name2, s2),
{
}

} // verus!
