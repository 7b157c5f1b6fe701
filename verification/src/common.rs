//! Small verified building blocks shared across the resolver.

use vstd::prelude::*;

verus! {

/// The values present in a sequence of optional values, in order.
pub open spec fn somes<T>(s: Seq<Option<T>>) -> Seq<T>
    decreases s.len(),
{
    if s.len() == 0 {
        Seq::empty()
    } else {
        (match s[0] {
            Option::Some(v) => seq![v],
            Option::None => Seq::empty(),
        }) + somes(s.drop_first())
    }
}

pub proof fn lemma_somes_snoc<T>(s: Seq<Option<T>>, x: Option<T>)
    ensures
        somes(s.push(x)) == somes(s) + (match x {
            Option::Some(v) => seq![v],
            Option::None => Seq::<T>::empty(),
        }),
    decreases s.len(),
{
    if s.len() == 0 {
        assert(s.push(x).drop_first() =~= Seq::<Option<T>>::empty());
        assert(s.push(x)[0] == x);
        assert(somes(Seq::<Option<T>>::empty()) =~= Seq::<T>::empty());
        assert(somes(s) =~= Seq::<T>::empty());
        assert(somes(s.push(x)) =~= somes(s) + (match x {
            Option::Some(v) => seq![v],
            Option::None => Seq::<T>::empty(),
        }));
    } else {
        assert(s.push(x).drop_first() =~= s.drop_first().push(x));
        lemma_somes_snoc(s.drop_first(), x);
        assert(somes(s.push(x)) =~= somes(s) + (match x {
            Option::Some(v) => seq![v],
            Option::None => Seq::<T>::empty(),
        }));
    }
}

/// An exact copy of an optional text, with the relation to the original
/// stated (a derived clone would leave it unspecified).
pub fn clone_opt_text(o: &Option<String>) -> (r: Option<String>)
    ensures
        r.deep_view() == o.deep_view(),
{
    match o {
        Option::Some(s) => Option::Some(s.clone()),
        Option::None => Option::None,
    }
}

/// Whether one of the names in `v` is exactly `s`.
pub fn names_contain(v: &Vec<String>, s: &str) -> (r: bool)
    ensures
        r == v.deep_view().contains(s@),
{
    let key = s.to_owned();
    let mut i: usize = 0;
    while i < v.len()
        invariant
            0 <= i <= v.len(),
            key@ == s@,
            forall|k: int| 0 <= k < i ==> v.deep_view()[k] != s@,
        decreases v.len() - i,
    {
        if v[i] == key {
            assert(v.deep_view()[i as int] == s@);
            return true;
        }
        i = i + 1;
    }
    false
}

} // verus!
