//! Department slugs: the filter tokens derived from the listing's
//! department facets.
use vstd::prelude::*;
use crate::api::ApiResponseDasFacet;
use crate::text::{alphabetic, whitespace, lower_of, chars_of, is_alphabetic, is_whitespace, string_of, to_lowercase};

verus! {

/// The facet group that names departments.
pub const DEPARTMENT_GROUP: &'static str = "Department";

/// The letters and whitespace of `s`, in order.
pub open spec fn word_chars(s: Seq<char>) -> Seq<char>
    decreases s.len(),
{
    if s.len() == 0 {
        s
    } else {
        let rest = word_chars(s.drop_last());
        if alphabetic(s.last()) || whitespace(s.last()) {
            rest.push(s.last())
        } else {
            rest
        }
    }
}

/// `s` with each run of whitespace turned into one hyphen.
pub open spec fn hyphenated(s: Seq<char>) -> Seq<char>
    decreases s.len(),
{
    if s.len() == 0 {
        s
    } else {
        let rest = hyphenated(s.drop_last());
        if !whitespace(s.last()) {
            rest.push(s.last())
        } else if s.len() >= 2 && whitespace(s[s.len() - 2]) {
            rest
        } else {
            rest.push('-')
        }
    }
}

/// The slug of a department's display name: its letters and whitespace,
/// lowercased, with each run of whitespace made one hyphen.
pub open spec fn slug(name: Seq<char>) -> Seq<char> {
    hyphenated(lower_of(word_chars(name)))
}

/// Turns each run of whitespace in `s` into one hyphen (see `hyphenated`).
pub fn hyphenate(s: &str) -> (r: String)
    ensures
        r@ == hyphenated(s@),
{
    let chars = chars_of(s);
    let mut out: Vec<char> = Vec::new();
    let mut j: usize = 0;
    let mut after_space = false;
    while j < chars.len()
        invariant
            j <= chars@.len(),
            out@ == hyphenated(chars@.take(j as int)),
            after_space == (j > 0 && whitespace(chars@[j - 1])),
        decreases chars@.len() - j,
    {
        proof {
            assert(chars@.take(j + 1).drop_last() =~= chars@.take(j as int));
            if j > 0 {
                assert(chars@.take(j + 1)[j - 1] == chars@[j - 1]);
            }
        }
        let c = chars[j];
        let space = is_whitespace(c);
        if !space {
            out.push(c);
        } else if !after_space {
            out.push('-');
        }
        after_space = space;
        j = j + 1;
    }
    proof {
        assert(chars@.take(j as int) =~= chars@);
    }
    string_of(&out)
}

/// The slug of a department's display name (see `slug`): `"Fruit & Veg"`
/// gives `"fruit-veg"`.
pub fn department_slug(name: &str) -> (r: String)
    ensures
        r@ == slug(name@),
{
    let chars = chars_of(name);
    let mut kept: Vec<char> = Vec::new();
    let mut i: usize = 0;
    while i < chars.len()
        invariant
            i <= chars@.len(),
            kept@ == word_chars(chars@.take(i as int)),
        decreases chars@.len() - i,
    {
        proof {
            assert(chars@.take(i + 1).drop_last() =~= chars@.take(i as int));
        }
        let c = chars[i];
        if is_alphabetic(c) || is_whitespace(c) {
            kept.push(c);
        }
        i = i + 1;
    }
    proof {
        assert(chars@.take(i as int) =~= name@);
    }
    let lowered = to_lowercase(string_of(&kept).as_str());
    hyphenate(lowered.as_str())
}

/// The views of a sequence of strings.
pub open spec fn texts(v: Seq<String>) -> Seq<Seq<char>> {
    v.map_values(|s: String| s@)
}

/// The slugs of the facets of the `"Department"` group, in facet order.
pub open spec fn department_slugs_of(facets: Seq<ApiResponseDasFacet>) -> Seq<Seq<char>>
    decreases facets.len(),
{
    if facets.len() == 0 {
        Seq::empty()
    } else {
        let rest = department_slugs_of(facets.drop_last());
        if facets.last().group@ == DEPARTMENT_GROUP@ {
            rest.push(slug(facets.last().name@))
        } else {
            rest
        }
    }
}

/// The department slugs that a listing's facets give (see
/// `department_slugs_of`).
pub fn department_slugs(facets: &Vec<ApiResponseDasFacet>) -> (r: Vec<String>)
    ensures
        texts(r@) == department_slugs_of(facets@),
{
    let group = String::from_str(DEPARTMENT_GROUP);
    let mut out: Vec<String> = Vec::new();
    let mut i: usize = 0;
    while i < facets.len()
        invariant
            i <= facets@.len(),
            group@ == DEPARTMENT_GROUP@,
            texts(out@) =~= department_slugs_of(facets@.take(i as int)),
        decreases facets@.len() - i,
    {
        proof {
            assert(facets@.take(i + 1).drop_last() =~= facets@.take(i as int));
        }
        if facets[i].group == group {
            let s = department_slug(facets[i].name.as_str());
            out.push(s);
        }
        i = i + 1;
    }
    proof {
        assert(facets@.take(i as int) =~= facets@);
    }
    out
}

} // verus!
