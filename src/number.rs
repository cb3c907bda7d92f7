//! Exact decimal numerals and ratios, the library's stand-in for the
//! floating-point sizes and prices of the catalogue feed.
use vstd::prelude::*;

verus! {

/// Largest magnitude of a numeral's digits read as one integer.
pub const MAX_MANTISSA: u64 = 999_999_999;

/// Largest count of fractional digits in a numeral.
pub const MAX_SCALE: u32 = 9;

/// `10^n`.
pub open spec fn pow10(n: nat) -> int
    decreases n,
{
    if n == 0 {
        1
    } else {
        10 * pow10((n - 1) as nat)
    }
}

proof fn lemma_pow10_bounds(n: nat)
    requires
        n <= MAX_SCALE,
    ensures
        1 <= pow10(n) <= 1_000_000_000,
    decreases n,
{
    if n > 0 {
        lemma_pow10_bounds((n - 1) as nat);
        if n == 9 {
            reveal_with_fuel(pow10, 10);
        } else {
            lemma_pow10_mono((n - 1) as nat, 8);
            reveal_with_fuel(pow10, 9);
        }
    }
}

proof fn lemma_pow10_mono(a: nat, b: nat)
    requires
        a <= b,
    ensures
        1 <= pow10(a) <= pow10(b),
    decreases b,
{
    if b > 0 {
        if a < b {
            lemma_pow10_mono(a, (b - 1) as nat);
        } else {
            lemma_pow10_mono((a - 1) as nat, (b - 1) as nat);
        }
    }
}

/// A decimal numeral's value, `mantissa / 10^scale`, kept as written
/// (`"1.50"` has mantissa 150 and scale 2).
#[derive(Clone, Copy, Debug, PartialEq, Eq, Structural)]
pub struct Decimal {
    pub mantissa: i64,
    pub scale: u32,
}

impl Decimal {
    pub open spec fn wf(&self) -> bool {
        &&& -(MAX_MANTISSA as int) <= self.mantissa <= MAX_MANTISSA
        &&& self.scale <= MAX_SCALE
    }

    /// The value is zero.
    pub open spec fn is_zero_spec(&self) -> bool {
        self.mantissa == 0
    }

    /// The value is exactly one.
    pub open spec fn is_one_spec(&self) -> bool {
        self.mantissa == pow10(self.scale as nat)
    }

    /// The integer part, truncated toward zero.
    pub open spec fn trunc_spec(&self) -> int {
        if self.mantissa >= 0 {
            (self.mantissa as int) / pow10(self.scale as nat)
        } else {
            -((-(self.mantissa as int)) / pow10(self.scale as nat))
        }
    }

    pub fn zero() -> (r: Decimal)
        ensures
            r.wf(),
            r.mantissa == 0,
            r.scale == 0,
    {
        Decimal { mantissa: 0, scale: 0 }
    }

    pub fn one() -> (r: Decimal)
        ensures
            r.wf(),
            r.mantissa == 1,
            r.scale == 0,
    {
        Decimal { mantissa: 1, scale: 0 }
    }

    /// Whether the decimal is within the library's bounds.
    pub fn is_wf(&self) -> (r: bool)
        ensures
            r == self.wf(),
    {
        -(MAX_MANTISSA as i64) <= self.mantissa && self.mantissa <= MAX_MANTISSA as i64 && self.scale <= MAX_SCALE
    }

    pub fn is_zero(&self) -> (r: bool)
        ensures
            r == self.is_zero_spec(),
    {
        self.mantissa == 0
    }

    pub fn is_one(&self) -> (r: bool)
        requires
            self.wf(),
        ensures
            r == self.is_one_spec(),
    {
        let p = pow10_exec(self.scale);
        self.mantissa == p as i64
    }

    /// The integer part, truncated toward zero.
    pub fn trunc(&self) -> (r: i32)
        requires
            self.wf(),
        ensures
            r == self.trunc_spec(),
    {
        let p = pow10_exec(self.scale);
        proof {
            lemma_pow10_bounds(self.scale as nat);
        }
        if self.mantissa >= 0 {
            let q = (self.mantissa as u64) / p;
            assert(q <= self.mantissa) by (nonlinear_arith)
                requires q == self.mantissa as u64 / p, p >= 1, self.mantissa >= 0;
            q as i32
        } else {
            let q = ((-self.mantissa) as u64) / p;
            assert(q <= -self.mantissa) by (nonlinear_arith)
                requires q == (-self.mantissa) as u64 / p, p >= 1, self.mantissa < 0;
            -(q as i32)
        }
    }
}

/// `10^n` for the scales a numeral may have.
pub fn pow10_exec(n: u32) -> (r: u64)
    requires
        n <= MAX_SCALE,
    ensures
        r == pow10(n as nat),
        1 <= r <= 1_000_000_000,
{
    let mut r: u64 = 1;
    let mut i: u32 = 0;
    while i < n
        invariant
            i <= n <= MAX_SCALE,
            r == pow10(i as nat),
        decreases n - i,
    {
        proof {
            lemma_pow10_bounds(i as nat);
        }
        r = r * 10;
        i = i + 1;
    }
    proof {
        lemma_pow10_bounds(n as nat);
    }
    r
}


pub open spec fn is_digit(c: char) -> bool {
    '0' <= c && c <= '9'
}

pub open spec fn all_digits(s: Seq<char>) -> bool {
    forall|i: int| 0 <= i < s.len() ==> is_digit(#[trigger] s[i])
}

/// The integer that a run of decimal digits spells.
pub open spec fn digits_value(s: Seq<char>) -> int
    decreases s.len(),
{
    if s.len() == 0 {
        0
    } else {
        10 * digits_value(s.drop_last()) + (s.last() as int - '0' as int)
    }
}

/// Index of the first `'.'`, or the length where there is none.
pub open spec fn first_point(b: Seq<char>) -> int
    decreases b.len(),
{
    if b.len() == 0 || b[0] == '.' {
        0
    } else {
        1 + first_point(b.drop_first())
    }
}

/// What follows an optional leading sign.
pub open spec fn unsigned_part(s: Seq<char>) -> Seq<char> {
    if s.len() > 0 && (s[0] == '-' || s[0] == '+') {
        s.drop_first()
    } else {
        s
    }
}

pub open spec fn decimal_from(negative: bool, digits: Seq<char>, scale: int) -> Option<Decimal> {
    let m = digits_value(digits);
    if m > MAX_MANTISSA || scale > MAX_SCALE {
        None
    } else {
        Some(Decimal { mantissa: (if negative { -m } else { m }) as i64, scale: scale as u32 })
    }
}

/// `b` with its first decimal point taken out.
pub open spec fn without_point(b: Seq<char>) -> Seq<char> {
    let k = first_point(b);
    if k < b.len() {
        b.take(k) + b.skip(k + 1)
    } else {
        b
    }
}

/// A numeral is an optional sign, then digits with at most one decimal
/// point among them and at least one digit. Its value is read exactly;
/// one whose digits exceed `MAX_MANTISSA` or whose fraction is longer
/// than `MAX_SCALE` digits is not read.
pub open spec fn numeral(s: Seq<char>) -> Option<Decimal> {
    let negative = s.len() > 0 && s[0] == '-';
    let b = unsigned_part(s);
    let d = without_point(b);
    if d.len() > 0 && all_digits(d) {
        let k = first_point(b);
        decimal_from(negative, d, if k < b.len() { b.len() - k - 1 } else { 0 })
    } else {
        None
    }
}

proof fn lemma_first_point(b: Seq<char>, i: int)
    requires
        0 <= i <= b.len(),
        forall|j: int| 0 <= j < i ==> b[j] != '.',
        i == b.len() || b[i] == '.',
    ensures
        first_point(b) == i,
    decreases i,
{
    if i > 0 {
        assert(b[0] != '.');
        let t = b.drop_first();
        assert forall|j: int| 0 <= j < i - 1 implies t[j] != '.' by {
            assert(t[j] == b[j + 1]);
        }
        lemma_first_point(t, i - 1);
    }
}

proof fn lemma_digits_value_push(s: Seq<char>, c: char)
    ensures
        digits_value(s.push(c)) == 10 * digits_value(s) + (c as int - '0' as int),
{
    assert(s.push(c).drop_last() =~= s);
}

proof fn lemma_digits_value_nonneg(s: Seq<char>)
    requires
        all_digits(s),
    ensures
        digits_value(s) >= 0,
    decreases s.len(),
{
    if s.len() > 0 {
        assert(all_digits(s.drop_last())) by {
            assert forall|i: int| 0 <= i < s.len() - 1 implies is_digit(#[trigger] s.drop_last()[i]) by {
                assert(s.drop_last()[i] == s[i]);
            }
        }
        lemma_digits_value_nonneg(s.drop_last());
        assert(is_digit(s[s.len() - 1]));
    }
}

/// A longer run of digits never spells a smaller number.
proof fn lemma_digits_value_prefix(s: Seq<char>, i: int)
    requires
        all_digits(s),
        0 <= i <= s.len(),
    ensures
        digits_value(s.take(i)) <= digits_value(s),
    decreases s.len() - i,
{
    if i < s.len() {
        lemma_digits_value_prefix(s, i + 1);
        let t = s.take(i + 1);
        assert(t.drop_last() =~= s.take(i));
        assert(all_digits(s.take(i))) by {
            assert forall|j: int| 0 <= j < i implies is_digit(#[trigger] s.take(i)[j]) by {
                assert(s.take(i)[j] == s[j]);
            }
        }
        lemma_digits_value_nonneg(s.take(i));
        assert(is_digit(s[i]));
        assert(t.last() == s[i]);
    } else {
        assert(s.take(i) =~= s);
    }
}

/// Reads a run of digits as one integer, where it is one and its value
/// is at most `MAX_MANTISSA`.
fn read_digits(d: &Vec<char>) -> (r: Option<u64>)
    ensures
        r matches Some(m) ==> all_digits(d@) && m == digits_value(d@) && m <= MAX_MANTISSA,
        r is None ==> !all_digits(d@) || digits_value(d@) > MAX_MANTISSA,
{
    let mut m: u64 = 0;
    let mut j: usize = 0;
    while j < d.len()
        invariant
            j <= d@.len(),
            all_digits(d@.take(j as int)),
            m == digits_value(d@.take(j as int)),
            m <= MAX_MANTISSA,
        decreases d@.len() - j,
    {
        let c = d[j];
        if !('0' <= c && c <= '9') {
            assert(!is_digit(d@[j as int]));
            return None;
        }
        proof {
            assert(d@.take(j + 1) =~= d@.take(j as int).push(c));
            lemma_digits_value_push(d@.take(j as int), c);
        }
        m = m * 10 + (c as u32 - '0' as u32) as u64;
        if m > MAX_MANTISSA {
            proof {
                if all_digits(d@) {
                    lemma_digits_value_prefix(d@, j + 1);
                }
            }
            return None;
        }
        j = j + 1;
    }
    proof {
        assert(d@.take(j as int) =~= d@);
    }
    Some(m)
}

/// Reads a numeral (see `numeral`).
pub fn parse_numeral(s: &Vec<char>) -> (r: Option<Decimal>)
    ensures
        r == numeral(s@),
        r matches Some(d) ==> d.wf(),
{
    let n = s.len();
    let negative = n > 0 && s[0] == '-';
    let start: usize = if n > 0 && (s[0] == '-' || s[0] == '+') { 1 } else { 0 };
    let ghost b = unsigned_part(s@);
    assert(b =~= s@.skip(start as int));
    let mut k: usize = start;
    while k < n && s[k] != '.'
        invariant
            start <= k <= n == s@.len(),
            b =~= s@.skip(start as int),
            forall|j: int| start <= j < k ==> s@[j] != '.',
        decreases n - k,
    {
        k = k + 1;
    }
    proof {
        assert forall|j: int| 0 <= j < k - start implies b[j] != '.' by {
            assert(b[j] == s@[j + start]);
        }
        lemma_first_point(b, k - start);
    }
    let mut digits: Vec<char> = Vec::new();
    let mut i: usize = start;
    while i < n
        invariant
            start <= i <= n == s@.len(),
            start <= k <= n,
            b =~= s@.skip(start as int),
            i <= k ==> digits@ =~= b.take(i - start),
            i > k ==> digits@ =~= b.take(k - start) + b.subrange(k - start + 1, i - start),
        decreases n - i,
    {
        if i != k {
            proof {
                if i < k {
                    assert(b.take(i - start + 1) =~= b.take(i - start).push(s@[i as int]));
                } else {
                    assert(b.subrange(k - start + 1, i - start + 1) =~= b.subrange(
                        k - start + 1,
                        i - start,
                    ).push(s@[i as int]));
                }
            }
            digits.push(s[i]);
        } else {
            assert(b.subrange(k - start + 1, k - start + 1) =~= Seq::<char>::empty());
        }
        i = i + 1;
    }
    proof {
        if k == n {
            assert(b.take(n - start) =~= b);
        } else {
            assert(b.subrange(k - start + 1, n - start) =~= b.skip(k - start + 1));
        }
        assert(digits@ =~= without_point(b));
    }
    if digits.len() == 0 {
        return None;
    }
    let scale: usize = if k == n { 0 } else { n - k - 1 };
    match read_digits(&digits) {
        None => None,
        Some(m) => {
            if scale > MAX_SCALE as usize {
                None
            } else {
                let mantissa: i64 = if negative { -(m as i64) } else { m as i64 };
                Some(Decimal { mantissa, scale: scale as u32 })
            }
        },
    }
}


/// A ratio `num / den` with a positive denominator, kept unreduced.
#[derive(Clone, Copy, Debug, PartialEq, Eq, Structural)]
pub struct Ratio {
    pub num: i128,
    pub den: i128,
}

impl Ratio {
    pub open spec fn wf(&self) -> bool {
        self.den > 0
    }
}

/// The ratio that a decimal stands for.
pub open spec fn ratio_of(d: Decimal) -> Ratio {
    Ratio { num: d.mantissa as i128, den: pow10(d.scale as nat) as i128 }
}

pub fn to_ratio(d: Decimal) -> (r: Ratio)
    requires
        d.wf(),
    ensures
        r == ratio_of(d),
        r.wf(),
{
    let p = pow10_exec(d.scale);
    Ratio { num: d.mantissa as i128, den: p as i128 }
}

/// The nearest integer to `num / den`, halves rounded away from zero.
pub open spec fn round_half_away(num: int, den: int) -> int {
    if num >= 0 {
        (2 * num + den) / (2 * den)
    } else {
        -((2 * (-num) + den) / (2 * den))
    }
}

/// `x` brought into the range of `i32`.
pub open spec fn saturate_i32(x: int) -> i32 {
    if x > i32::MAX {
        i32::MAX
    } else if x < i32::MIN {
        i32::MIN
    } else {
        x as i32
    }
}

/// Largest numerator that `Ratio`'s arithmetic here produces.
pub const MAX_NUM: i128 = 1_000_000_000_000_000_000_000_000_000;

/// Largest denominator that `Ratio`'s arithmetic here produces.
pub const MAX_DEN: i128 = 10_000_000_000_000_000_000_000_000_000_000_000_000;

/// The nearest `i32` to a ratio, halves rounded away from zero and values
/// beyond the range clamped to it.
pub fn round_to_i32(r: Ratio) -> (q: i32)
    requires
        r.wf(),
        -MAX_NUM <= r.num <= MAX_NUM,
        r.den <= MAX_DEN,
    ensures
        q == saturate_i32(round_half_away(r.num as int, r.den as int)),
{
    let den = r.den as u128;
    let mag: u128 = if r.num >= 0 { r.num as u128 } else { (-r.num) as u128 };
    let rounded: u128 = (2 * mag + den) / (2 * den);
    if r.num >= 0 {
        if rounded > i32::MAX as u128 {
            i32::MAX
        } else {
            rounded as i32
        }
    } else {
        if rounded > 2_147_483_648u128 {
            i32::MIN
        } else {
            (-(rounded as i64)) as i32
        }
    }
}

} // verus!
