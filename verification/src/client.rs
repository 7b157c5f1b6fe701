//! The generated client's request-building rules: path-template
//! substitution, query-string serialization with list flattening, and the
//! fixed request headers.

use vstd::prelude::*;

verus! {

/// Whether `pat` occurs in `s` starting at position `i`.
pub open spec fn match_at(s: Seq<char>, pat: Seq<char>, i: int) -> bool {
    0 <= i && i + pat.len() <= s.len() && s.subrange(i, i + pat.len()) == pat
}

/// The position of the leftmost occurrence of `pat` in `s`, or `-1`.
pub open spec fn find_pat(s: Seq<char>, pat: Seq<char>) -> int
    decreases s.len(),
{
    if pat.len() > s.len() {
        -1
    } else if match_at(s, pat, 0) {
        0
    } else if s.len() == 0 {
        -1
    } else {
        let r = find_pat(s.drop_first(), pat);
        if r < 0 {
            -1
        } else {
            r + 1
        }
    }
}

pub proof fn lemma_find_pat_bounds(s: Seq<char>, pat: Seq<char>)
    ensures
        find_pat(s, pat) >= 0 ==> match_at(s, pat, find_pat(s, pat)),
        find_pat(s, pat) >= 0 ==> find_pat(s, pat) + pat.len() <= s.len(),
    decreases s.len(),
{
    if pat.len() <= s.len() && !match_at(s, pat, 0) && s.len() > 0 {
        lemma_find_pat_bounds(s.drop_first(), pat);
        let r = find_pat(s.drop_first(), pat);
        if r >= 0 {
            assert(s.drop_first().subrange(r, r + pat.len()) =~= s.subrange(
                r + 1,
                r + 1 + pat.len(),
            ));
        }
    }
}

/// `s` with every occurrence of `pat` replaced by `to`, scanning left to
/// right over non-overlapping occurrences.
pub open spec fn spec_replace(s: Seq<char>, pat: Seq<char>, to: Seq<char>) -> Seq<char>
    decreases s.len(),
    when pat.len() > 0
    via spec_replace_decreases
{
    let j = find_pat(s, pat);
    if j < 0 {
        s
    } else {
        s.take(j) + to + spec_replace(s.skip(j + pat.len()), pat, to)
    }
}

#[via_fn]
proof fn spec_replace_decreases(s: Seq<char>, pat: Seq<char>, to: Seq<char>) {
    lemma_find_pat_bounds(s, pat);
}

pub proof fn lemma_replace_match_step(s: Seq<char>, pat: Seq<char>, to: Seq<char>)
    requires
        pat.len() > 0,
        match_at(s, pat, 0),
    ensures
        spec_replace(s, pat, to) == to + spec_replace(s.skip(pat.len() as int), pat, to),
{
    assert(find_pat(s, pat) == 0);
    assert(s.take(0) =~= Seq::<char>::empty());
    assert(s.take(0) + to =~= to);
}

pub proof fn lemma_replace_no_match_step(s: Seq<char>, pat: Seq<char>, to: Seq<char>)
    requires
        pat.len() > 0,
        s.len() > 0,
        !match_at(s, pat, 0),
    ensures
        spec_replace(s, pat, to) == seq![s[0]] + spec_replace(s.drop_first(), pat, to),
{
    lemma_find_pat_bounds(s, pat);
    lemma_find_pat_bounds(s.drop_first(), pat);
    if pat.len() > s.len() {
        assert(find_pat(s, pat) == -1);
        assert(pat.len() > s.drop_first().len());
        assert(find_pat(s.drop_first(), pat) == -1);
        assert(seq![s[0]] + s.drop_first() =~= s);
    } else {
        let sub = find_pat(s.drop_first(), pat);
        if sub < 0 {
            assert(find_pat(s, pat) == -1);
            assert(seq![s[0]] + s.drop_first() =~= s);
        } else {
            assert(find_pat(s, pat) == sub + 1);
            assert(s.take(sub + 1) =~= seq![s[0]] + s.drop_first().take(sub));
            assert(s.skip(sub + 1 + pat.len()) =~= s.drop_first().skip(sub + pat.len()));
            assert(s.take(sub + 1) + to + spec_replace(s.skip(sub + 1 + pat.len()), pat, to)
                =~= seq![s[0]] + (s.drop_first().take(sub) + to + spec_replace(
                s.drop_first().skip(sub + pat.len()),
                pat,
                to,
            )));
        }
    }
}

/// Whether `pat` occurs in `s` at position `i`, executable form.
fn match_here(s: &str, pat: &str, i: usize) -> (r: bool)
    requires
        i + pat@.len() <= s@.len(),
    ensures
        r == match_at(s@, pat@, i as int),
{
    let n = s.unicode_len();
    let m = pat.unicode_len();
    let mut k: usize = 0;
    while k < m
        invariant
            0 <= k <= m,
            m == pat@.len(),
            n == s@.len(),
            i + m <= n,
            forall|t: int| 0 <= t < k ==> s@[i + t] == pat@[t],
        decreases m - k,
    {
        if s.get_char(i + k) != pat.get_char(k) {
            proof {
                if match_at(s@, pat@, i as int) {
                    assert(s@.subrange(i as int, i + m)[k as int] == s@[i + k]);
                }
            }
            return false;
        }
        k = k + 1;
    }
    proof {
        assert(s@.subrange(i as int, i + m) =~= pat@);
    }
    true
}

/// `s` with every occurrence of `pat` replaced by `to`, scanning left to
/// right over non-overlapping occurrences.
#[verifier::loop_isolation(false)]
pub fn replace_all(s: &str, pat: &str, to: &str) -> (r: String)
    requires
        pat@.len() > 0,
    ensures
        r@ == spec_replace(s@, pat@, to@),
{
    let n = s.unicode_len();
    let m = pat.unicode_len();
    let mut out = String::new();
    let mut i: usize = 0;
    proof {
        assert(s@.skip(0) =~= s@);
        assert(out@ + spec_replace(s@, pat@, to@) =~= spec_replace(s@, pat@, to@));
    }
    while i < n
        invariant
            0 <= i <= n,
            out@ + spec_replace(s@.skip(i as int), pat@, to@) == spec_replace(s@, pat@, to@),
        decreases n - i,
    {
        let mut matched = false;
        if m <= n - i {
            matched = match_here(s, pat, i);
        }
        proof {
            if m > n - i {
                assert(!match_at(s@.skip(i as int), pat@, 0));
            } else {
                assert(s@.skip(i as int).subrange(0, m as int) =~= s@.subrange(i as int, i + m));
                assert(matched == match_at(s@.skip(i as int), pat@, 0));
            }
        }
        if matched {
            let ghost pre = out@;
            out.append(to);
            proof {
                lemma_replace_match_step(s@.skip(i as int), pat@, to@);
                assert(s@.skip(i as int).skip(m as int) =~= s@.skip(i + m));
                assert(out@ + spec_replace(s@.skip(i + m), pat@, to@) =~= pre + spec_replace(
                    s@.skip(i as int),
                    pat@,
                    to@,
                ));
            }
            i = i + m;
        } else {
            let c = s.substring_char(i, i + 1);
            let ghost pre = out@;
            out.append(c);
            proof {
                lemma_replace_no_match_step(s@.skip(i as int), pat@, to@);
                assert(s@.skip(i as int).drop_first() =~= s@.skip(i as int + 1));
                assert(c@ =~= seq![s@[i as int]]);
                assert(s@.skip(i as int)[0] == s@[i as int]);
                assert(out@ + spec_replace(s@.skip(i as int + 1), pat@, to@) =~= pre
                    + spec_replace(s@.skip(i as int), pat@, to@));
            }
            i = i + 1;
        }
    }
    proof {
        assert(s@.skip(n as int) =~= Seq::<char>::empty());
        assert(spec_replace(s@.skip(n as int), pat@, to@) == Seq::<char>::empty());
        assert(out@ =~= spec_replace(s@, pat@, to@));
    }
    out
}

/// The request path: the template with each parameter's value substituted
/// into its `{name}`-style placeholder, in order.
pub open spec fn spec_build_path(
    template: Seq<char>,
    params: Seq<(Seq<char>, Seq<char>)>,
) -> Seq<char>
    decreases params.len(),
{
    if params.len() == 0 {
        template
    } else {
        spec_build_path(
            spec_replace(template, "{"@ + params[0].0 + "}"@, params[0].1),
            params.drop_first(),
        )
    }
}

/// Builds the request path from a template and the path parameters, each
/// substituted for its `{name}` placeholder in order.
#[verifier::loop_isolation(false)]
pub fn build_path(template: &str, params: &Vec<(String, String)>) -> (r: String)
    ensures
        r@ == spec_build_path(template@, params.deep_view()),
{
    let mut path = template.to_owned();
    let mut i: usize = 0;
    proof {
        assert(params.deep_view().skip(0) =~= params.deep_view());
    }
    while i < params.len()
        invariant
            0 <= i <= params.len(),
            spec_build_path(template@, params.deep_view()) == spec_build_path(
                path@,
                params.deep_view().skip(i as int),
            ),
        decreases params.len() - i,
    {
        proof {
            reveal_strlit("{");
            reveal_strlit("}");
            assert(params.deep_view().skip(i as int).drop_first() =~= params.deep_view().skip(
                i as int + 1,
            ));
        }
        let pat = "{".to_owned().concat(params[i].0.as_str()).concat("}");
        path = replace_all(path.as_str(), pat.as_str(), params[i].1.as_str());
        i = i + 1;
    }
    proof {
        assert(params.deep_view().skip(params@.len() as int) =~= Seq::<
            (Seq<char>, Seq<char>),
        >::empty());
    }
    path
}

/// A query parameter's resolved value: one text, or a list of texts that
/// serializes as a single comma-joined field.
pub enum QueryValue {
    Single(String),
    Many(Vec<String>),
}

/// The mathematical image of a `QueryValue`.
pub enum QueryValueView {
    Single(Seq<char>),
    Many(Seq<Seq<char>>),
}

impl DeepView for QueryValue {
    type V = QueryValueView;

    open spec fn deep_view(&self) -> QueryValueView {
        match self {
            QueryValue::Single(s) => QueryValueView::Single(s@),
            QueryValue::Many(vs) => QueryValueView::Many(vs.deep_view()),
        }
    }
}

/// The texts joined with a single comma between each pair.
pub open spec fn join_comma(vs: Seq<Seq<char>>) -> Seq<char>
    decreases vs.len(),
{
    if vs.len() == 0 {
        Seq::empty()
    } else if vs.len() == 1 {
        vs[0]
    } else {
        vs[0] + ","@ + join_comma(vs.drop_first())
    }
}

proof fn lemma_join_comma_snoc(vs: Seq<Seq<char>>, x: Seq<char>)
    ensures
        join_comma(vs.push(x)) == if vs.len() == 0 {
            x
        } else {
            join_comma(vs) + ","@ + x
        },
    decreases vs.len(),
{
    if vs.len() == 0 {
        assert(vs.push(x)[0] == x);
    } else {
        assert(vs.push(x).drop_first() =~= vs.drop_first().push(x));
        lemma_join_comma_snoc(vs.drop_first(), x);
        if vs.len() == 1 {
            assert(vs.push(x)[0] == vs[0]);
            assert(vs.drop_first().len() == 0);
            assert(join_comma(vs.push(x)) =~= join_comma(vs) + ","@ + x);
        } else {
            assert(join_comma(vs.push(x)) =~= join_comma(vs) + ","@ + x);
        }
    }
}

/// What a query value serializes to before encoding: a list is flattened to
/// one comma-joined text, never to a repeated-key field.
pub open spec fn spec_flatten_query_value(v: QueryValueView) -> Seq<char> {
    match v {
        QueryValueView::Single(s) => s,
        QueryValueView::Many(vs) => join_comma(vs),
    }
}

/// Flattens a query value: a single text unchanged, a list comma-joined.
#[verifier::loop_isolation(false)]
pub fn flatten_query_value(v: &QueryValue) -> (r: String)
    ensures
        r@ == spec_flatten_query_value(v.deep_view()),
{
    match v {
        QueryValue::Single(s) => s.clone(),
        QueryValue::Many(vs) => {
            let mut out = String::new();
            let mut i: usize = 0;
            proof {
                assert(vs.deep_view().take(0) =~= Seq::<Seq<char>>::empty());
            }
            while i < vs.len()
                invariant
                    0 <= i <= vs.len(),
                    out@ == join_comma(vs.deep_view().take(i as int)),
                decreases vs.len() - i,
            {
                proof {
                    assert(vs.deep_view().take(i as int + 1) =~= vs.deep_view().take(
                        i as int,
                    ).push(vs.deep_view()[i as int]));
                    lemma_join_comma_snoc(vs.deep_view().take(i as int), vs.deep_view()[i as int]);
                }
                if i > 0 {
                    out.append(",");
                    proof {
                        reveal_strlit(",");
                    }
                }
                out.append(vs[i].as_str());
                i = i + 1;
            }
            proof {
                assert(vs.deep_view().take(vs@.len() as int) =~= vs.deep_view());
            }
            out
        },
    }
}

/// The pairs handed to the encoder: declared order kept, absent values
/// skipped, list values flattened.
pub open spec fn spec_query_pairs(qs: Seq<(Seq<char>, Option<QueryValueView>)>) -> Seq<
    (Seq<char>, Seq<char>),
>
    decreases qs.len(),
{
    if qs.len() == 0 {
        Seq::empty()
    } else {
        (match qs[0].1 {
            Option::Some(v) => seq![(qs[0].0, spec_flatten_query_value(v))],
            Option::None => Seq::empty(),
        }) + spec_query_pairs(qs.drop_first())
    }
}

proof fn lemma_query_pairs_snoc(qs: Seq<(Seq<char>, Option<QueryValueView>)>, x: (
    Seq<char>,
    Option<QueryValueView>,
))
    ensures
        spec_query_pairs(qs.push(x)) == spec_query_pairs(qs) + (match x.1 {
            Option::Some(v) => seq![(x.0, spec_flatten_query_value(v))],
            Option::None => Seq::<(Seq<char>, Seq<char>)>::empty(),
        }),
    decreases qs.len(),
{
    if qs.len() == 0 {
        assert(qs.push(x).drop_first() =~= Seq::<(Seq<char>, Option<QueryValueView>)>::empty());
        assert(qs.push(x)[0] == x);
        assert(spec_query_pairs(qs.push(x)) == (match qs.push(x)[0].1 {
            Option::Some(v2) => seq![(qs.push(x)[0].0, spec_flatten_query_value(v2))],
            Option::None => Seq::<(Seq<char>, Seq<char>)>::empty(),
        }) + spec_query_pairs(qs.push(x).drop_first()));
        match x.1 {
            Option::Some(v) => {
                assert(spec_query_pairs(qs.push(x)) =~= seq![
                    (x.0, spec_flatten_query_value(v)),
                ]);
                assert(spec_query_pairs(qs) + seq![(x.0, spec_flatten_query_value(v))] =~= seq![
                    (x.0, spec_flatten_query_value(v)),
                ]);
            },
            Option::None => {
                assert(spec_query_pairs(qs.push(x)) =~= Seq::<(Seq<char>, Seq<char>)>::empty());
                assert(spec_query_pairs(qs) + Seq::<(Seq<char>, Seq<char>)>::empty() =~= Seq::<
                    (Seq<char>, Seq<char>),
                >::empty());
            },
        }
    } else {
        assert(qs.push(x).drop_first() =~= qs.drop_first().push(x));
        assert(qs.push(x)[0] == qs[0]);
        lemma_query_pairs_snoc(qs.drop_first(), x);
        let head = (match qs[0].1 {
            Option::Some(v) => seq![(qs[0].0, spec_flatten_query_value(v))],
            Option::None => Seq::<(Seq<char>, Seq<char>)>::empty(),
        });
        let t = (match x.1 {
            Option::Some(v) => seq![(x.0, spec_flatten_query_value(v))],
            Option::None => Seq::<(Seq<char>, Seq<char>)>::empty(),
        });
        assert(spec_query_pairs(qs.push(x)) == head + spec_query_pairs(qs.drop_first().push(x)));
        assert(spec_query_pairs(qs.drop_first().push(x)) == spec_query_pairs(qs.drop_first())
            + t);
        assert(spec_query_pairs(qs) == head + spec_query_pairs(qs.drop_first()));
        assert(head + (spec_query_pairs(qs.drop_first()) + t) =~= (head + spec_query_pairs(
            qs.drop_first(),
        )) + t);
    }
}

/// Query flattening: a parameter whose value is a list contributes exactly
/// one field to the encoded pairs, holding the comma-joined texts — never a
/// repeated key per element.
pub proof fn lemma_list_value_flattens_to_one_field(name: Seq<char>, vs: Seq<Seq<char>>)
    ensures
        spec_query_pairs(seq![(name, Option::Some(QueryValueView::Many(vs)))]) == seq![
            (name, join_comma(vs)),
        ],
{
    let qs = seq![(name, Option::Some(QueryValueView::Many(vs)))];
    assert(qs.drop_first() =~= Seq::<(Seq<char>, Option<QueryValueView>)>::empty());
    assert(spec_query_pairs(qs) == (match qs[0].1 {
        Option::Some(v) => seq![(qs[0].0, spec_flatten_query_value(v))],
        Option::None => Seq::<(Seq<char>, Seq<char>)>::empty(),
    }) + spec_query_pairs(qs.drop_first()));
    assert(spec_query_pairs(qs) =~= seq![(name, join_comma(vs))]);
}

/// What the form encoder returns for a sequence of text pairs; the encoding
/// depends on the pairs alone.
pub uninterp spec fn urlencoded_of(pairs: Seq<(Seq<char>, Seq<char>)>) -> Seq<char>;

/// Relies on `serde_urlencoded::to_string` on a sequence of text pairs: a
/// pure serialization of the pairs into a form-urlencoded query string. Its
/// serializer has no failure path for string pairs (the pair, key and value
/// sinks all accept strings), so the call always succeeds.
#[verifier::external_body]
fn encode_pairs(pairs: &Vec<(String, String)>) -> (r: Result<String, String>)
    ensures
        r is Ok,
        r matches Ok(s) ==> s@ == urlencoded_of(pairs.deep_view()),
{
    match serde_urlencoded::to_string(pairs) {
        Ok(s) => Ok(s),
        Err(e) => Err(e.to_string()),
    }
}

/// Serializes query parameters into a query string: absent values are
/// skipped, a list value is flattened to one comma-joined field rather than
/// a repeated key, and the pairs are form-urlencoded. Always produces the
/// fragment: encoding text pairs cannot fail.
#[verifier::loop_isolation(false)]
pub fn build_query(params: &Vec<(String, Option<QueryValue>)>) -> (r: String)
    ensures
        r@ == urlencoded_of(spec_query_pairs(params.deep_view())),
{
    let mut pairs: Vec<(String, String)> = Vec::new();
    let mut i: usize = 0;
    proof {
        assert(params.deep_view().take(0) =~= Seq::<(Seq<char>, Option<QueryValueView>)>::empty());
        assert(pairs.deep_view() =~= spec_query_pairs(params.deep_view().take(0)));
    }
    while i < params.len()
        invariant
            0 <= i <= params.len(),
            pairs.deep_view() == spec_query_pairs(params.deep_view().take(i as int)),
        decreases params.len() - i,
    {
        proof {
            assert(params.deep_view().take(i as int + 1) =~= params.deep_view().take(
                i as int,
            ).push(params.deep_view()[i as int]));
            lemma_query_pairs_snoc(params.deep_view().take(i as int), params.deep_view()[i as int]);
        }
        match &params[i].1 {
            Option::Some(v) => {
                pairs.push((params[i].0.clone(), flatten_query_value(v)));
                proof {
                    assert(pairs.deep_view() =~= spec_query_pairs(params.deep_view().take(
                        i as int + 1,
                    )));
                }
            },
            Option::None => {
                proof {
                    assert(pairs.deep_view() =~= spec_query_pairs(params.deep_view().take(
                        i as int + 1,
                    )));
                }
            },
        }
        i = i + 1;
    }
    proof {
        assert(params.deep_view().take(params@.len() as int) =~= params.deep_view());
    }
    match encode_pairs(&pairs) {
        Ok(s) => s,
        Err(_) => {
            proof {
                assert(false);
            }
            String::new()
        },
    }
}

/// The fixed headers every generated request carries: the user-agent
/// literal, the bearer token, and the routing identifier.
pub fn request_headers(token: &str, hub: &str) -> (r: Vec<(String, String)>)
    ensures
        r.deep_view() == seq![
            ("user-agent"@, "cycle/1.0.0"@),
            ("authorization"@, "Bearer "@ + token@),
            ("x-hub-id"@, hub@),
        ],
{
    let mut r: Vec<(String, String)> = Vec::new();
    r.push(("user-agent".to_owned(), "cycle/1.0.0".to_owned()));
    r.push(("authorization".to_owned(), "Bearer ".to_owned().concat(token)));
    r.push(("x-hub-id".to_owned(), hub.to_owned()));
    proof {
        assert(r.deep_view() =~= seq![
            ("user-agent"@, "cycle/1.0.0"@),
            ("authorization"@, "Bearer "@ + token@),
            ("x-hub-id"@, hub@),
        ]);
    }
    r
}

} // verus!
