//! Query strings: their decoded `name=value` pairs, and the check that every
//! name is one that a handler knows.

use vstd::prelude::*;
use vstd::string::*;

use crate::errors::ApiError;
use crate::text::str_eq;

verus! {

/// The decoded `(name, value)` pairs of an `application/x-www-form-urlencoded`
/// byte string, in order, as `form_urlencoded::parse` yields them.
pub uninterp spec fn form_urlencoded_pairs(input: Seq<u8>) -> Seq<(Seq<char>, Seq<char>)>;

/// Collects the pairs that `form_urlencoded::parse(input)` yields, as owned
/// strings. The contract claims that they are the pairs the crate decodes from
/// `input`, in order, a function of `input` alone.
#[verifier::external_body]
fn parse_pairs(input: &[u8]) -> (r: Vec<(String, String)>)
    ensures
        r@.len() == form_urlencoded_pairs(input@).len(),
        forall|i: int|
            0 <= i < r@.len() ==> (#[trigger] r@[i]).0@ == form_urlencoded_pairs(input@)[i].0
                && r@[i].1@ == form_urlencoded_pairs(input@)[i].1,
{
    form_urlencoded::parse(input).into_owned().collect()
}

/// The text of each pair.
pub open spec fn pairs_text(pairs: Seq<(String, String)>) -> Seq<(Seq<char>, Seq<char>)> {
    pairs.map_values(|p: (String, String)| (p.0@, p.1@))
}

/// The text of each name.
pub open spec fn names_text(names: Seq<&str>) -> Seq<Seq<char>> {
    names.map_values(|n: &str| n@)
}

/// The first name among the pairs that is not in `known`.
pub open spec fn first_unknown_name(
    pairs: Seq<(Seq<char>, Seq<char>)>,
    known: Seq<Seq<char>>,
) -> Option<Seq<char>>
    decreases pairs.len(),
{
    if pairs.len() == 0 {
        None
    } else if !known.contains(pairs[0].0) {
        Some(pairs[0].0)
    } else {
        first_unknown_name(pairs.drop_first(), known)
    }
}

/// What the check of a query string gives: the first unknown name, if any.
pub open spec fn query_unknown_name(query: Option<Seq<char>>, known: Seq<Seq<char>>) -> Option<
    Seq<char>,
> {
    match query {
        Some(q) => first_unknown_name(form_urlencoded_pairs(vstd::utf8::encode_utf8(q)), known),
        None => None,
    }
}

/// The text of an optional `&str`.
pub open spec fn opt_str_text(s: Option<&str>) -> Option<Seq<char>> {
    match s {
        Some(t) => Some(t@),
        None => None,
    }
}

/// Whether `name` is one of `known`.
fn is_known(name: &str, known: &Vec<&str>) -> (r: bool)
    ensures
        r == names_text(known@).contains(name@),
{
    let n = known.len();
    let mut i: usize = 0;
    while i < n
        invariant
            i <= n == known@.len(),
            forall|k: int| 0 <= k < i ==> known@[k]@ != name@,
        decreases n - i,
    {
        if str_eq(known[i], name) {
            assert(names_text(known@)[i as int] == name@);
            return true;
        }
        i = i + 1;
    }
    proof {
        if names_text(known@).contains(name@) {
            let k = choose|k: int| 0 <= k < names_text(known@).len() && names_text(known@)[k] == name@;
            assert(known@[k]@ == name@);
        }
    }
    false
}

/// The first of the pairs whose name is not in `known`, refused as
/// `UnknownQueryParam`.
pub fn check_pairs(pairs: &Vec<(String, String)>, known: &Vec<&str>) -> (r: Result<(), ApiError>)
    ensures
        match first_unknown_name(pairs_text(pairs@), names_text(known@)) {
            Some(name) => r matches Err(ApiError::UnknownQueryParam(k)) && k@ == name,
            None => r is Ok,
        },
{
    let n = pairs.len();
    let ghost all = pairs_text(pairs@);
    let mut i: usize = 0;
    assert(all.skip(0) =~= all);
    while i < n
        invariant
            i <= n == pairs@.len(),
            all == pairs_text(pairs@),
            first_unknown_name(all, names_text(known@)) == first_unknown_name(
                all.skip(i as int),
                names_text(known@),
            ),
        decreases n - i,
    {
        let name = &pairs[i].0;
        assert(all.skip(i as int)[0] == all[i as int]);
        if !is_known(name.as_str(), known) {
            return Err(ApiError::UnknownQueryParam(name.clone()));
        }
        assert(all.skip(i as int).drop_first() =~= all.skip(i + 1));
        i = i + 1;
    }
    Ok(())
}

/// Refuses a query string that names a parameter not in `known`, with the first such name.
pub fn check_query(query: Option<&str>, known: &Vec<&str>) -> (r: Result<(), ApiError>)
    ensures
        match query_unknown_name(opt_str_text(query), names_text(known@)) {
            Some(name) => r matches Err(ApiError::UnknownQueryParam(k)) && k@ == name,
            None => r is Ok,
        },
{
    match query {
        Some(q) => {
            let pairs = parse_pairs(q.as_bytes());
            assert(pairs_text(pairs@) =~= form_urlencoded_pairs(q.spec_bytes()));
            check_pairs(&pairs, known)
        },
        None => Ok(()),
    }
}

} // verus!
