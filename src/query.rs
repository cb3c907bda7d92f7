//! The query of a listing request.
use vstd::prelude::*;
use crate::image::pairs_view;

verus! {

/// The catalogue listing's address.
pub const PRODUCT_API_URL: &'static str = "https://www.countdown.co.nz/api/v1/products";

pub open spec fn digit_char(d: nat) -> char {
    seq!['0', '1', '2', '3', '4', '5', '6', '7', '8', '9'][d as int]
}

/// The decimal digits of `n`.
pub open spec fn decimal_digits(n: nat) -> Seq<char>
    decreases n,
{
    if n < 10 {
        seq![digit_char(n)]
    } else {
        decimal_digits(n / 10).push(digit_char(n % 10))
    }
}

/// Relies on `ToString` for `usize`: its decimal digits, without sign or
/// leading zeros.
#[verifier::external_body]
fn decimal_text(n: usize) -> (r: String)
    ensures
        r@ == decimal_digits(n as nat),
{
    n.to_string()
}

/// The department filter for slug `d`.
pub open spec fn department_filter(d: Seq<char>) -> Seq<char> {
    "Department;;"@ + d + ";false"@
}

/// The query pairs of a request for page `page` of `size` items, of one
/// department where one is given.
pub open spec fn page_query_of(department: Option<Seq<char>>, page: nat, size: nat) -> Seq<(Seq<char>, Seq<char>)> {
    let fixed = seq![
        ("target"@, "browse"@),
        ("inStockProductsOnly"@, "false"@),
        ("page"@, decimal_digits(page)),
        ("size"@, decimal_digits(size)),
    ];
    match department {
        Some(d) => fixed.push(("dasFilter"@, department_filter(d))),
        None => fixed,
    }
}

/// The query pairs of a listing request (see `page_query_of`).
pub fn page_query(department: Option<&str>, page: usize, size: usize) -> (r: Vec<(String, String)>)
    ensures
        pairs_view(r@) == page_query_of(
            match department {
                Some(d) => Some(d@),
                None => None,
            },
            page as nat,
            size as nat,
        ),
{
    let mut v: Vec<(String, String)> = Vec::new();
    v.push((String::from_str("target"), String::from_str("browse")));
    v.push((String::from_str("inStockProductsOnly"), String::from_str("false")));
    v.push((String::from_str("page"), decimal_text(page)));
    v.push((String::from_str("size"), decimal_text(size)));
    if let Some(d) = department {
        let filter = String::from_str("Department;;").concat(d).concat(";false");
        v.push((String::from_str("dasFilter"), filter));
    }
    proof {
        let dv = match department {
            Some(d) => Some(d@),
            None => None,
        };
        assert(pairs_view(v@) =~= page_query_of(dv, page as nat, size as nat));
    }
    v
}

} // verus!
