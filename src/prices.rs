//! Price observations for the products that matched the catalogue.
use vstd::prelude::*;
use crate::api::{ApiProduct, effective_price, get_price};
use crate::matcher::INVALID;
use crate::number::Decimal;

verus! {

/// One price reading of a catalogue product at a retailer location.
#[derive(Clone, Copy, Debug, PartialEq, Eq, Structural)]
pub struct PriceObservation {
    pub location_id: i32,
    pub product_id: i32,
    pub price: Decimal,
    pub on_special: Option<bool>,
    pub original_price: Option<Decimal>,
}

/// The observation of product `p`, resolved to `id`, at `location_id`.
pub open spec fn observation_of(p: ApiProduct, id: i32, location_id: i32) -> PriceObservation {
    PriceObservation {
        location_id,
        product_id: id,
        price: effective_price(p),
        on_special: Some(p.price.is_special),
        original_price: p.price.original_price,
    }
}

/// The observations of the first `n` products paired with their ids,
/// skipping those resolved to `INVALID`.
pub open spec fn observations(products: Seq<ApiProduct>, ids: Seq<i32>, location_id: i32, n: int) -> Seq<PriceObservation>
    decreases n,
{
    if n <= 0 {
        Seq::empty()
    } else {
        let rest = observations(products, ids, location_id, n - 1);
        if ids[n - 1] == INVALID {
            rest
        } else {
            rest.push(observation_of(products[n - 1], ids[n - 1], location_id))
        }
    }
}

/// Pairs each product with its id by position and builds the observation
/// of each pair whose id is not `INVALID`; products or ids beyond the
/// shorter list are left out.
pub fn matched_prices(store_products: &Vec<ApiProduct>, product_ids: &Vec<i32>, location_id: i32) -> (r: Vec<PriceObservation>)
    requires
        forall|i: int| 0 <= i < store_products@.len() ==> (#[trigger] store_products@[i]).wf(),
    ensures
        r@ == observations(
            store_products@,
            product_ids@,
            location_id,
            if store_products@.len() <= product_ids@.len() {
                store_products@.len() as int
            } else {
                product_ids@.len() as int
            },
        ),
{
    let n = if store_products.len() <= product_ids.len() { store_products.len() } else { product_ids.len() };
    let mut out: Vec<PriceObservation> = Vec::new();
    let mut i: usize = 0;
    while i < n
        invariant
            i <= n <= store_products@.len(),
            n <= product_ids@.len(),
            n == (if store_products@.len() <= product_ids@.len() {
                store_products@.len() as int
            } else {
                product_ids@.len() as int
            }),
            forall|j: int| 0 <= j < store_products@.len() ==> (#[trigger] store_products@[j]).wf(),
            out@ == observations(store_products@, product_ids@, location_id, i as int),
        decreases n - i,
    {
        let id = product_ids[i];
        if id != INVALID {
            let p = &store_products[i];
            out.push(PriceObservation {
                location_id,
                product_id: id,
                price: get_price(p),
                on_special: Some(p.price.is_special),
                original_price: p.price.original_price,
            });
        }
        i = i + 1;
    }
    out
}

} // verus!
