//! The enumeration extractor: whether a primitive schema carries a closed
//! value set, and the typed variant list it induces.

use vstd::prelude::*;
use crate::common::lemma_somes_snoc;
use crate::common::somes;
use crate::naming::to_upper_camel_case;
use crate::naming::upper_camel_of;
use crate::schema::Schema;
use crate::schema::SchemaShape;
use crate::schema::ShapeView;
use crate::schema::shape_view;

verus! {

/// A closed set of variants: string literals, integer literals, or the
/// ordered member type names of a tagged union.
pub enum Enumeration {
    Text(Vec<String>),
    Integer(Vec<i64>),
    Union(Vec<String>),
}

/// The mathematical image of an `Enumeration`.
pub enum EnumerationView {
    Text(Seq<Seq<char>>),
    Integer(Seq<i64>),
    Union(Seq<Seq<char>>),
}

impl DeepView for Enumeration {
    type V = EnumerationView;

    open spec fn deep_view(&self) -> EnumerationView {
        match self {
            Enumeration::Text(vs) => EnumerationView::Text(vs.deep_view()),
            Enumeration::Integer(vs) => EnumerationView::Integer(vs.deep_view()),
            Enumeration::Union(vs) => EnumerationView::Union(vs.deep_view()),
        }
    }
}

/// What the extractor returns: `None` unless the primitive schema carries a
/// non-empty literal-value list; the present literals, in declaration order,
/// otherwise.
pub open spec fn spec_enumeration_discover(sh: ShapeView) -> Option<EnumerationView> {
    match sh {
        ShapeView::Text { enumeration } => if enumeration.len() == 0 {
            Option::None
        } else {
            Option::Some(EnumerationView::Text(somes(enumeration)))
        },
        ShapeView::Integer { enumeration } => if enumeration.len() == 0 {
            Option::None
        } else {
            Option::Some(EnumerationView::Integer(somes(enumeration)))
        },
        _ => Option::None,
    }
}

fn collect_text(v: &Vec<Option<String>>) -> (r: Vec<String>)
    ensures
        r.deep_view() == somes(v.deep_view()),
{
    let mut r: Vec<String> = Vec::new();
    let mut i: usize = 0;
    proof {
        assert(v.deep_view().take(0) =~= Seq::<Option<Seq<char>>>::empty());
        assert(r.deep_view() =~= somes(v.deep_view().take(0)));
    }
    while i < v.len()
        invariant
            0 <= i <= v.len(),
            v.deep_view().len() == v.len(),
            r.deep_view() == somes(v.deep_view().take(i as int)),
        decreases v.len() - i,
    {
        proof {
            assert(v.deep_view().take(i + 1) =~= v.deep_view().take(i as int).push(
                v.deep_view()[i as int],
            ));
            lemma_somes_snoc(v.deep_view().take(i as int), v.deep_view()[i as int]);
        }
        match &v[i] {
            Option::Some(s) => {
                r.push(s.clone());
                proof {
                    assert(r.deep_view() =~= somes(v.deep_view().take(i + 1)));
                }
            },
            Option::None => {
                proof {
                    assert(r.deep_view() =~= somes(v.deep_view().take(i + 1)));
                }
            },
        }
        i = i + 1;
    }
    proof {
        assert(v.deep_view().take(v.len() as int) =~= v.deep_view());
    }
    r
}

fn collect_int(v: &Vec<Option<i64>>) -> (r: Vec<i64>)
    ensures
        r.deep_view() == somes(v.deep_view()),
{
    let mut r: Vec<i64> = Vec::new();
    let mut i: usize = 0;
    proof {
        assert(v.deep_view().take(0) =~= Seq::<Option<i64>>::empty());
        assert(r.deep_view() =~= somes(v.deep_view().take(0)));
    }
    while i < v.len()
        invariant
            0 <= i <= v.len(),
            v.deep_view().len() == v.len(),
            r.deep_view() == somes(v.deep_view().take(i as int)),
        decreases v.len() - i,
    {
        proof {
            assert(v.deep_view().take(i + 1) =~= v.deep_view().take(i as int).push(
                v.deep_view()[i as int],
            ));
            lemma_somes_snoc(v.deep_view().take(i as int), v.deep_view()[i as int]);
        }
        match &v[i] {
            Option::Some(n) => {
                r.push(*n);
                proof {
                    assert(r.deep_view() =~= somes(v.deep_view().take(i + 1)));
                }
            },
            Option::None => {
                proof {
                    assert(r.deep_view() =~= somes(v.deep_view().take(i + 1)));
                }
            },
        }
        i = i + 1;
    }
    proof {
        assert(v.deep_view().take(v.len() as int) =~= v.deep_view());
    }
    r
}

impl Enumeration {
    /// Extracts the closed value set of a primitive schema, or `None` when
    /// the schema carries no enumeration constraint (the model is then an
    /// open-ended alias, not an enumeration).
    pub fn discover(schema: &Schema) -> (r: Option<Enumeration>)
        ensures
            r.deep_view() == spec_enumeration_discover(shape_view(schema.shape)),
    {
        match &schema.shape {
            SchemaShape::Text { enumeration } => {
                if enumeration.len() == 0 {
                    Option::None
                } else {
                    Option::Some(Enumeration::Text(collect_text(enumeration)))
                }
            },
            SchemaShape::Integer { enumeration } => {
                if enumeration.len() == 0 {
                    Option::None
                } else {
                    Option::Some(Enumeration::Integer(collect_int(enumeration)))
                }
            },
            _ => Option::None,
        }
    }
}

/// Whether `c` is a decimal digit.
pub open spec fn is_digit_char(c: char) -> bool {
    '0' <= c && c <= '9'
}

/// The identifier derived for one enumeration literal: the upper-camel-cased
/// literal, prefixed with the owning model's name when the literal begins
/// with a digit (so the identifier stays valid). The literal's wire form is
/// kept separately and is never altered by this derivation.
pub open spec fn spec_variant_name(model: Seq<char>, value: Seq<char>) -> Seq<char> {
    if value.len() > 0 && is_digit_char(value[0]) {
        upper_camel_of(model + value)
    } else {
        upper_camel_of(value)
    }
}

/// Derives the identifier for one enumeration literal of the named model.
pub fn variant_name(model: &str, value: &str) -> (r: String)
    ensures
        r@ == spec_variant_name(model@, value@),
{
    let n = value.unicode_len();
    let leading_digit = if n > 0 {
        let c = value.get_char(0);
        '0' <= c && c <= '9'
    } else {
        false
    };
    if leading_digit {
        to_upper_camel_case(model.to_owned().concat(value).as_str())
    } else {
        to_upper_camel_case(value)
    }
}

/// The wire-form/identifier pairs of a string enumeration, in declaration
/// order: each literal keeps its exact wire form beside the derived
/// identifier.
pub open spec fn spec_enum_variants(model: Seq<char>, values: Seq<Seq<char>>) -> Seq<
    (Seq<char>, Seq<char>),
>
    decreases values.len(),
{
    if values.len() == 0 {
        Seq::empty()
    } else {
        seq![(values[0], spec_variant_name(model, values[0]))] + spec_enum_variants(
            model,
            values.drop_first(),
        )
    }
}

proof fn lemma_enum_variants_snoc(model: Seq<char>, values: Seq<Seq<char>>, x: Seq<char>)
    ensures
        spec_enum_variants(model, values.push(x)) == spec_enum_variants(model, values) + seq![
            (x, spec_variant_name(model, x)),
        ],
    decreases values.len(),
{
    if values.len() == 0 {
        assert(values.push(x).drop_first() =~= Seq::<Seq<char>>::empty());
        assert(values.push(x)[0] == x);
        assert(spec_enum_variants(model, values.push(x)) == (seq![
            (x, spec_variant_name(model, x)),
        ]) + spec_enum_variants(model, values.push(x).drop_first()));
        assert(spec_enum_variants(model, values.push(x)) =~= spec_enum_variants(model, values)
            + seq![(x, spec_variant_name(model, x))]);
    } else {
        assert(values.push(x).drop_first() =~= values.drop_first().push(x));
        assert(values.push(x)[0] == values[0]);
        lemma_enum_variants_snoc(model, values.drop_first(), x);
        assert(spec_enum_variants(model, values.push(x)) == (seq![
            (values[0], spec_variant_name(model, values[0])),
        ]) + spec_enum_variants(model, values.drop_first().push(x)));
        assert(spec_enum_variants(model, values.push(x)) =~= spec_enum_variants(model, values)
            + seq![(x, spec_variant_name(model, x))]);
    }
}

/// The wire-form/identifier pairs of a string enumeration of the named
/// model, in declaration order.
#[verifier::loop_isolation(false)]
pub fn enum_variants(model: &str, values: &Vec<String>) -> (r: Vec<(String, String)>)
    ensures
        r.deep_view() == spec_enum_variants(model@, values.deep_view()),
{
    let mut r: Vec<(String, String)> = Vec::new();
    let mut i: usize = 0;
    proof {
        assert(values.deep_view().take(0) =~= Seq::<Seq<char>>::empty());
        assert(r.deep_view() =~= spec_enum_variants(model@, values.deep_view().take(0)));
    }
    while i < values.len()
        invariant
            0 <= i <= values.len(),
            r.deep_view() == spec_enum_variants(model@, values.deep_view().take(i as int)),
        decreases values.len() - i,
    {
        proof {
            assert(values.deep_view().take(i as int + 1) =~= values.deep_view().take(
                i as int,
            ).push(values.deep_view()[i as int]));
            lemma_enum_variants_snoc(
                model@,
                values.deep_view().take(i as int),
                values.deep_view()[i as int],
            );
        }
        r.push((values[i].clone(), variant_name(model, values[i].as_str())));
        proof {
            assert(r.deep_view() =~= spec_enum_variants(model@, values.deep_view().take(
                i as int + 1,
            )));
        }
        i = i + 1;
    }
    proof {
        assert(values.deep_view().take(values@.len() as int) =~= values.deep_view());
    }
    r
}

/// Round trip of enumerations: every derived variant carries the exact
/// original literal as its wire form, so serializing the variant for a
/// literal yields that literal again, never its identifier form.
pub proof fn lemma_variant_wire_round_trip(model: Seq<char>, values: Seq<Seq<char>>)
    ensures
        spec_enum_variants(model, values).len() == values.len(),
        forall|i: int|
            0 <= i < values.len() ==> #[trigger] spec_enum_variants(model, values)[i] == (
                values[i],
                spec_variant_name(model, values[i]),
            ),
    decreases values.len(),
{
    if values.len() > 0 {
        lemma_variant_wire_round_trip(model, values.drop_first());
    }
}

} // verus!
