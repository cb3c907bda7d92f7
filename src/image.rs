//! The large-image address stored for a product: the feed's address with
//! every query parameter but `impolicy` dropped.
use vstd::prelude::*;
use crate::size::opt_view;

verus! {

/// The decoded query pairs of a URL's text, in order; nothing where the
/// text does not parse as an absolute URL.
pub uninterp spec fn url_query_pairs(s: Seq<char>) -> Option<Seq<(Seq<char>, Seq<char>)>>;

/// The serialized URL that `s` parses to, with its query set to `q`;
/// nothing where `s` does not parse as an absolute URL.
pub uninterp spec fn url_with_query(s: Seq<char>, q: Seq<char>) -> Option<Seq<char>>;

pub open spec fn pairs_view(v: Seq<(String, String)>) -> Seq<(Seq<char>, Seq<char>)> {
    v.map_values(|p: (String, String)| (p.0@, p.1@))
}

/// Relies on `url::Url::parse` and `Url::query_pairs`: the pairs of the
/// parsed URL's query, percent-decoded, in the order written.
#[verifier::external_body]
fn query_pairs(src: &str) -> (r: Option<Vec<(String, String)>>)
    ensures
        match r {
            Some(v) => url_query_pairs(src@) == Some(pairs_view(v@)),
            None => url_query_pairs(src@) is None,
        },
{
    url::Url::parse(src).ok().map(|u| u.query_pairs().into_owned().collect())
}

/// Relies on `url::Url::parse`, `Url::set_query` and `Url`'s conversion to
/// `String`: the parsed URL serialized with `query` as its query.
#[verifier::external_body]
fn with_query(src: &str, query: &str) -> (r: Option<String>)
    ensures
        opt_view(r) == url_with_query(src@, query@),
{
    let mut u = url::Url::parse(src).ok()?;
    u.set_query(Some(query));
    Some(u.into())
}

/// The value of the last pair whose key is `impolicy`.
pub open spec fn last_impolicy(pairs: Seq<(Seq<char>, Seq<char>)>) -> Option<Seq<char>>
    decreases pairs.len(),
{
    if pairs.len() == 0 {
        None
    } else if pairs.last().0 == "impolicy"@ {
        Some(pairs.last().1)
    } else {
        last_impolicy(pairs.drop_last())
    }
}

/// The query that keeps only `impolicy`: `impolicy=<value>`, or empty.
pub open spec fn impolicy_query(pairs: Seq<(Seq<char>, Seq<char>)>) -> Seq<char> {
    match last_impolicy(pairs) {
        Some(v) => "impolicy="@ + v,
        None => Seq::empty(),
    }
}

/// The address with only its `impolicy` query parameter kept; nothing
/// where it does not parse as a URL.
pub open spec fn large_image(src: Seq<char>) -> Option<Seq<char>> {
    match url_query_pairs(src) {
        Some(pairs) => url_with_query(src, impolicy_query(pairs)),
        None => None,
    }
}

/// The query that keeps only the last `impolicy` pair of `pairs` (see
/// `impolicy_query`).
pub fn impolicy_only(pairs: &Vec<(String, String)>) -> (r: String)
    ensures
        r@ == impolicy_query(pairs_view(pairs@)),
{
    let key = String::from_str("impolicy");
    let mut found: Option<usize> = None;
    let mut i: usize = 0;
    while i < pairs.len()
        invariant
            i <= pairs@.len(),
            key@ == "impolicy"@,
            match found {
                Some(j) => j < i && last_impolicy(pairs_view(pairs@.take(i as int))) == Some(pairs@[j as int].1@),
                None => last_impolicy(pairs_view(pairs@.take(i as int))) is None,
            },
        decreases pairs@.len() - i,
    {
        proof {
            assert(pairs_view(pairs@.take(i + 1)).drop_last() =~= pairs_view(pairs@.take(i as int)));
            assert(pairs_view(pairs@.take(i + 1)).last() == (pairs@[i as int].0@, pairs@[i as int].1@));
        }
        if pairs[i].0 == key {
            found = Some(i);
        }
        i = i + 1;
    }
    proof {
        assert(pairs@.take(i as int) =~= pairs@);
    }
    match found {
        Some(j) => String::from_str("impolicy=").concat(pairs[j].1.as_str()),
        None => String::new(),
    }
}

/// Keeps only the `impolicy` query parameter of an image address (see
/// `large_image`). An address that does not parse as a URL gives nothing
/// rather than a failure: the product is then stored without an image.
pub fn get_large_image(src: &str) -> (r: Option<String>)
    ensures
        opt_view(r) == large_image(src@),
{
    let pairs = match query_pairs(src) {
        Some(p) => p,
        None => return None,
    };
    let query = impolicy_only(&pairs);
    with_query(src, query.as_str())
}

} // verus!
