//! The reference resolver: a pointer-style reference designates the model
//! named by its final path segment.

use vstd::prelude::*;
use crate::error::Error;
use crate::error::ErrorView;

verus! {

/// The index of the first character after the last `/` of `s` (or `0` when
/// `s` has no `/`): where the final path segment starts.
pub open spec fn seg_start(s: Seq<char>) -> int
    decreases s.len(),
{
    if s.len() == 0 {
        0
    } else if s.last() == '/' {
        s.len() as int
    } else {
        seg_start(s.drop_last())
    }
}

/// The final path segment of a pointer-style reference: everything after the
/// last `/`, or the whole string when it has no `/`.
pub open spec fn last_segment(s: Seq<char>) -> Seq<char> {
    s.subrange(seg_start(s), s.len() as int)
}

/// The canonical model name a reference designates, or the error for a
/// malformed pointer whose final segment is empty.
pub open spec fn spec_ref_name(s: Seq<char>) -> Result<Seq<char>, ErrorView> {
    if last_segment(s).len() == 0 {
        Err(ErrorView::MalformedReference { reference: s })
    } else {
        Ok(last_segment(s))
    }
}

/// Resolves a pointer-style reference to the canonical model name it
/// designates. A pointer with an empty final segment is a fatal input error.
pub fn ref_name(reference: &str) -> (r: Result<String, Error>)
    ensures
        match r {
            Ok(s) => spec_ref_name(reference@) == Ok::<Seq<char>, ErrorView>(s@),
            Err(e) => spec_ref_name(reference@) == Err::<Seq<char>, ErrorView>(e.deep_view()),
        },
{
    let n = reference.unicode_len();
    let mut j: usize = n;
    proof {
        assert(reference@.take(n as int) =~= reference@);
    }
    while j > 0 && reference.get_char(j - 1) != '/'
        invariant
            0 <= j <= n,
            n == reference@.len(),
            seg_start(reference@) == seg_start(reference@.take(j as int)),
        decreases j,
    {
        proof {
            assert(reference@.take(j as int).drop_last() =~= reference@.take(j as int - 1));
        }
        j = j - 1;
    }
    proof {
        if j == 0 {
            assert(seg_start(reference@.take(0)) == 0);
        }
        assert(seg_start(reference@) == j);
    }
    if j == n {
        Err(Error::MalformedReference { reference: reference.to_owned() })
    } else {
        Ok(reference.substring_char(j, n).to_owned())
    }
}

} // verus!
