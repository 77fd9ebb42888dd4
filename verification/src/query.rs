use vstd::prelude::*;

verus! {

use crate::dict::Dict;

/// The decoded `(name, value)` pairs of a query string in
/// `application/x-www-form-urlencoded` syntax, in order: the text split
/// on `&`, empty sequences dropped, each piece split on its first `=`
/// (a missing `=` leaves the value empty), both sides with `+` read as a
/// space and percent-escapes decoded.
pub uninterp spec fn query_pairs_of(q: Seq<char>) -> Seq<(Seq<char>, Seq<char>)>;

/// The views of decoded pairs, in order.
pub open spec fn pair_views(v: Seq<(String, String)>) -> Seq<(Seq<char>, Seq<char>)> {
    v.map_values(|p: (String, String)| (p.0@, p.1@))
}

/// The map the decoded pairs build up, a later pair overriding an earlier
/// one that repeats its name.
pub open spec fn pairs_fold(ps: Seq<(Seq<char>, Seq<char>)>) -> Map<Seq<char>, Seq<char>>
    decreases ps.len(),
{
    if ps.len() == 0 {
        Map::<Seq<char>, Seq<char>>::empty()
    } else {
        pairs_fold(ps.drop_last()).insert(ps.last().0, ps.last().1)
    }
}

/// The parameter mapping of a query string.
pub open spec fn query_dict(q: Seq<char>) -> Map<Seq<char>, Seq<char>> {
    pairs_fold(query_pairs_of(q))
}

/// Relies on url::form_urlencoded::parse: the decoded pairs are a function
/// of the input text alone, and an empty input yields no pairs.
#[verifier::external_body]
fn parse_query_pairs(query: &str) -> (r: Vec<(String, String)>)
    ensures
        pair_views(r@) == query_pairs_of(query@),
        query@.len() == 0 ==> r@.len() == 0,
{
    url::form_urlencoded::parse(query.as_bytes()).into_owned().collect()
}

/// Decodes a request's query string into its parameter mapping, a later
/// pair overriding an earlier one that repeats its name.
pub fn extract_query(query: &str) -> (r: Dict)
    ensures
        r.wf(),
        r@ == query_dict(query@),
{
    let pairs = parse_query_pairs(query);
    let ghost pv = query_pairs_of(query@);
    let mut d = Dict::new();
    let mut i: usize = 0;
    proof {
        assert(pairs_fold(pv.subrange(0, 0)) =~= Map::<Seq<char>, Seq<char>>::empty());
    }
    while i < pairs.len()
        invariant
            i <= pairs@.len(),
            pv == query_pairs_of(query@),
            pair_views(pairs@) == pv,
            pairs@.len() == pv.len(),
            d.wf(),
            d@ == pairs_fold(pv.subrange(0, i as int)),
        decreases pairs@.len() - i,
    {
        let p = &pairs[i];
        let k = p.0.clone();
        let v = p.1.clone();
        d.insert(k, v);
        proof {
            assert(pv[i as int] == (pairs@[i as int].0@, pairs@[i as int].1@));
            assert(pv.subrange(0, i + 1).drop_last() =~= pv.subrange(0, i as int));
            assert(pv.subrange(0, i + 1).last() == pv[i as int]);
        }
        i += 1;
    }
    proof {
        assert(pv.subrange(0, pv.len() as int) =~= pv);
    }
    d
}

/// Looks one query parameter up, yielding its value or the empty string
/// when the name is absent.
pub fn get_param(query_params: &Dict, key: &str) -> (r: String)
    requires
        query_params.wf(),
    ensures
        r@ == if query_params@.contains_key(key@) {
            query_params@[key@]
        } else {
            Seq::<char>::empty()
        },
{
    match query_params.get(key) {
        Some(v) => v,
        None => String::new(),
    }
}

} // verus!
