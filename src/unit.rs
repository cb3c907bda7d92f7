//! Reading a trailing unit token and the amount before it from free text
//! such as `"300kg"`, `"3pack"` or `"per kg"`.
use vstd::prelude::*;
use crate::number::{Decimal, numeral, parse_numeral};
use crate::text::{alphabetic, removed, trim_end, trim_start, chars_of, is_alphabetic, remove_all, string_of, trim};

verus! {

/// A character that may belong to a unit token.
pub open spec fn unit_char(c: char) -> bool {
    alphabetic(c) && c != ' '
}

/// The longest run of unit characters at the end of `s`.
pub open spec fn unit_token(s: Seq<char>) -> Seq<char>
    decreases s.len(),
{
    if s.len() > 0 && unit_char(s.last()) {
        unit_token(s.drop_last()).push(s.last())
    } else {
        Seq::empty()
    }
}

/// The amount and unit read from `s`: the unit is the trailing token; the
/// amount is the numeral that remains once every occurrence of the token is
/// taken out and the rest trimmed, or one where no numeral remains.
///
/// Amounts are kept exact, so only what `numeral` reads counts as one: a
/// sign, at most `MAX_MANTISSA` in digits and at most `MAX_SCALE` of them
/// after the point. Exponent forms (`"1e3"`), `inf`, `nan`, and amounts
/// beyond those bounds (`"1000000000"`, `"0.0000000001"`) read as one.
pub open spec fn unit_reading(s: Seq<char>) -> (Decimal, Seq<char>) {
    let unit = unit_token(s);
    let amount = match numeral(trim_end(trim_start(removed(s, unit)))) {
        Some(d) => d,
        None => Decimal { mantissa: 1, scale: 0 },
    };
    (amount, unit)
}

proof fn lemma_unit_token(s: Seq<char>, k: int)
    requires
        0 <= k <= s.len(),
        forall|j: int| s.len() - k <= j < s.len() ==> unit_char(#[trigger] s[j]),
        k == s.len() || !unit_char(s[s.len() - 1 - k]),
    ensures
        unit_token(s) =~= s.skip(s.len() - k),
    decreases k,
{
    if k > 0 {
        let t = s.drop_last();
        assert forall|j: int| t.len() - (k - 1) <= j < t.len() implies unit_char(#[trigger] t[j]) by {
            assert(t[j] == s[j]);
        }
        if k - 1 < t.len() {
            assert(t[t.len() - 1 - (k - 1)] == s[s.len() - 1 - k]);
        }
        lemma_unit_token(t, k - 1);
        assert(unit_char(s[s.len() - 1]));
        assert(s.skip(s.len() - k) =~= t.skip(t.len() - (k - 1)).push(s.last()));
    }
}

/// Splits free text into an amount and a trailing unit token (see
/// `unit_reading`): `"300kg"` gives 300 and `"kg"`, `"per kg"` gives 1 and
/// `"kg"`. An amount that is no bounded decimal numeral (`"1e3g"`,
/// `"1000000000g"`) reads as one.
pub fn parse_unit(text: &str) -> (r: (Decimal, String))
    ensures
        (r.0, r.1@) == unit_reading(text@),
        r.0.wf(),
{
    let chars = chars_of(text);
    let n = chars.len();
    let mut k: usize = 0;
    while k < n && is_alphabetic(chars[n - 1 - k]) && chars[n - 1 - k] != ' '
        invariant
            k <= n == chars@.len() == text@.len(),
            forall|j: int| n - k <= j < n ==> unit_char(#[trigger] chars@[j]),
        decreases n - k,
    {
        k = k + 1;
    }
    proof {
        lemma_unit_token(chars@, k as int);
    }
    let mut unit_chars: Vec<char> = Vec::new();
    let mut i: usize = n - k;
    while i < n
        invariant
            k <= n,
            n - k <= i <= n == chars@.len(),
            unit_chars@ =~= chars@.subrange(n - k, i as int),
        decreases n - i,
    {
        assert(chars@.subrange(n - k, i + 1) =~= chars@.subrange(n - k, i as int).push(chars@[i as int]));
        unit_chars.push(chars[i]);
        i = i + 1;
    }
    assert(unit_chars@ =~= chars@.skip(n - k));
    let unit = string_of(&unit_chars);
    let rest = remove_all(text, unit.as_str());
    let rest_chars = chars_of(trim(rest.as_str()));
    let amount = match parse_numeral(&rest_chars) {
        Some(d) => d,
        None => Decimal::one(),
    };
    (amount, unit)
}

} // verus!
