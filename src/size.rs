//! Size, unit and pack quantity of a product, read from the free-text
//! fields of its listing, with the unit price as the last resort.
use vstd::prelude::*;
use crate::api::ApiProduct;
use crate::number::{
    Decimal, MAX_DEN, MAX_NUM, MAX_MANTISSA, Ratio, pow10, pow10_exec, ratio_of, round_half_away, round_to_i32, saturate_i32, to_ratio,
};
use crate::text::chars_of;
use crate::unit::{parse_unit, unit_reading};

verus! {

/// The view of an optional string.
pub open spec fn opt_view(s: Option<String>) -> Option<Seq<char>> {
    match s {
        Some(t) => Some(t@),
        None => None,
    }
}

/// A unit, where the token read is not empty.
pub open spec fn unit_if_any(u: Seq<char>) -> Option<Seq<char>> {
    if u.len() > 0 {
        Some(u)
    } else {
        None
    }
}

/// `amount × (price / cup_price) / quantity`, or nothing where the divisor
/// is zero.
pub open spec fn scaled_size(amount: Decimal, price: Decimal, cup_price: Decimal, quantity: int) -> Option<Ratio> {
    let num = amount.mantissa * price.mantissa * pow10(cup_price.scale as nat);
    let den = pow10(amount.scale as nat) * pow10(price.scale as nat) * cup_price.mantissa * quantity;
    if den == 0 {
        None
    } else if den > 0 {
        Some(Ratio { num: num as i128, den: den as i128 })
    } else {
        Some(Ratio { num: (-num) as i128, den: (-den) as i128 })
    }
}

/// Size, quantity and unit as the volume-size field gives them: a
/// `"pack"` unit makes the amount the quantity, any other reading is a size
/// with its unit.
pub open spec fn volume_reading(volume: Option<Seq<char>>) -> (Option<Ratio>, int, Option<Seq<char>>) {
    match volume {
        None => (None, 1, None),
        Some(v) => {
            let (amount, unit) = unit_reading(v);
            if unit == "pack"@ {
                (None, amount.trunc_spec(), None)
            } else {
                (Some(ratio_of(amount)), 1, unit_if_any(unit))
            }
        },
    }
}

/// The reading after the variety name is tried: only where no unit is
/// known yet, and only a one-word name with a unit and an amount other
/// than one.
pub open spec fn variety_reading(
    prev: (Option<Ratio>, int, Option<Seq<char>>),
    variety: Option<Seq<char>>,
) -> (Option<Ratio>, int, Option<Seq<char>>) {
    if prev.2 is None && variety is Some {
        let name = variety->0;
        let (amount, unit) = unit_reading(name);
        if unit.len() > 0 && !amount.is_one_spec() && !name.contains(' ') {
            (Some(ratio_of(amount)), prev.1, Some(unit))
        } else {
            prev
        }
    } else {
        prev
    }
}

/// The reading after the unit price is tried: only where no unit is known
/// yet. The size is the cup measure scaled by price over cup price and
/// divided by the quantity; a cup measure in `"ea"` sets the quantity
/// instead, where it is still one.
pub open spec fn cup_reading(
    prev: (Option<Ratio>, int, Option<Seq<char>>),
    cup_measure: Option<Seq<char>>,
    cup_price: Option<Decimal>,
    price: Decimal,
) -> (Option<Ratio>, int, Option<Seq<char>>) {
    if prev.2 is None && cup_measure is Some && cup_price is Some {
        let (amount, unit) = unit_reading(cup_measure->0);
        match scaled_size(amount, price, cup_price->0, prev.1) {
            None => prev,
            Some(r) => {
                if unit == "ea"@ {
                    if prev.1 == 1 {
                        (prev.0, saturate_i32(round_half_away(r.num as int, r.den as int)) as int, prev.2)
                    } else {
                        prev
                    }
                } else {
                    (Some(r), prev.1, unit_if_any(unit))
                }
            },
        }
    } else {
        prev
    }
}

/// Size, quantity and unit of a product whose effective price is `price`.
pub open spec fn size_reading(p: ApiProduct, price: Decimal) -> (Option<Ratio>, int, Option<Seq<char>>) {
    cup_reading(
        variety_reading(volume_reading(opt_view(p.size.volume_size)), opt_view(p.variety)),
        opt_view(p.size.cup_measure),
        p.size.cup_price,
        price,
    )
}

proof fn lemma_mul_bound(x: int, y: int, bx: int, by_: int)
    requires
        -bx <= x <= bx,
        -by_ <= y <= by_,
    ensures
        -(bx * by_) <= x * y <= bx * by_,
{
    assert(-(bx * by_) <= x * y <= bx * by_) by (nonlinear_arith)
        requires
            -bx <= x <= bx,
            -by_ <= y <= by_,
    ;
}

/// Computes `scaled_size` within the bounds of `Ratio`'s arithmetic.
fn scaled(amount: Decimal, price: Decimal, cup_price: Decimal, quantity: i32) -> (r: Option<Ratio>)
    requires
        amount.wf(),
        price.wf(),
        cup_price.wf(),
    ensures
        r == scaled_size(amount, price, cup_price, quantity as int),
        r matches Some(x) ==> x.wf() && -MAX_NUM <= x.num <= MAX_NUM && x.den <= MAX_DEN,
{
    let pa = pow10_exec(amount.scale) as i128;
    let pp = pow10_exec(price.scale) as i128;
    let pc = pow10_exec(cup_price.scale) as i128;
    let ghost m = MAX_MANTISSA as int;
    proof {
        lemma_mul_bound(amount.mantissa as int, price.mantissa as int, m, m);
        lemma_mul_bound(amount.mantissa as int * price.mantissa as int, pc as int, m * m, 1_000_000_000);
        lemma_mul_bound(pa as int, pp as int, 1_000_000_000, 1_000_000_000);
        lemma_mul_bound(pa as int * pp as int, cup_price.mantissa as int, 1_000_000_000_000_000_000, m);
        lemma_mul_bound(
            pa as int * pp as int * cup_price.mantissa as int,
            quantity as int,
            1_000_000_000_000_000_000_000_000_000,
            2_147_483_648,
        );
    }
    let num = (amount.mantissa as i128) * (price.mantissa as i128) * pc;
    let den = pa * pp * (cup_price.mantissa as i128) * (quantity as i128);
    if den == 0 {
        None
    } else if den > 0 {
        Some(Ratio { num, den })
    } else {
        Some(Ratio { num: -num, den: -den })
    }
}

/// Whether `s` reads exactly `lit`.
fn same_text(s: &String, lit: &str) -> (r: bool)
    ensures
        r == (s@ == lit@),
{
    let t = String::from_str(lit);
    *s == t
}

/// Whether `s` holds a space.
fn has_space(s: &String) -> (r: bool)
    ensures
        r == s@.contains(' '),
{
    let chars = chars_of(s.as_str());
    let mut i: usize = 0;
    while i < chars.len()
        invariant
            i <= chars@.len(),
            chars@ == s@,
            forall|j: int| 0 <= j < i ==> chars@[j] != ' ',
        decreases chars@.len() - i,
    {
        if chars[i] == ' ' {
            return true;
        }
        i = i + 1;
    }
    false
}

/// Size, quantity and unit of a product whose effective price is
/// `store_price` (see `size_reading`). The fields are tried in turn: the
/// volume size, then the variety name, then the cup measure with the cup
/// price.
pub fn parse_size_unit(store_product: &ApiProduct, store_price: Decimal) -> (r: (Option<Ratio>, i32, Option<String>))
    requires
        store_product.wf(),
        store_price.wf(),
    ensures
        (r.0, r.1 as int, opt_view(r.2)) == size_reading(*store_product, store_price),
        r.0 matches Some(x) ==> x.wf(),
{
    let mut size: Option<Ratio> = None;
    let mut unit: Option<String> = None;
    let mut quantity: i32 = 1;
    let ghost step1 = volume_reading(opt_view(store_product.size.volume_size));
    if let Some(volume_size) = &store_product.size.volume_size {
        let (parsed_size, parsed_unit) = parse_unit(volume_size.as_str());
        if same_text(&parsed_unit, "pack") {
            quantity = parsed_size.trunc();
        } else {
            if !parsed_unit.as_str().is_empty() {
                unit = Some(parsed_unit);
            }
            size = Some(to_ratio(parsed_size));
        }
    }
    assert((size, quantity as int, opt_view(unit)) == step1);
    let ghost step2 = variety_reading(step1, opt_view(store_product.variety));
    if unit.is_none() {
        if let Some(variant_name) = &store_product.variety {
            let (parsed_size, parsed_unit) = parse_unit(variant_name.as_str());
            if !parsed_unit.as_str().is_empty() && !parsed_size.is_one() && !has_space(variant_name) {
                unit = Some(parsed_unit);
                size = Some(to_ratio(parsed_size));
            }
        }
    }
    assert((size, quantity as int, opt_view(unit)) == step2);
    if unit.is_none() {
        if let (Some(cup_measure), Some(cup_price)) = (&store_product.size.cup_measure, &store_product.size.cup_price) {
            let (parsed_size, parsed_unit) = parse_unit(cup_measure.as_str());
            if let Some(real_size) = scaled(parsed_size, store_price, *cup_price, quantity) {
                if same_text(&parsed_unit, "ea") {
                    if quantity == 1 {
                        quantity = round_to_i32(real_size);
                    }
                } else {
                    if !parsed_unit.as_str().is_empty() {
                        unit = Some(parsed_unit);
                    }
                    size = Some(real_size);
                }
            }
        }
    }
    (size, quantity, unit)
}

} // verus!
