//! The catalogue feed's response, as the library holds it once decoded:
//! numbers that the feed sends as decimals are `Decimal`s.
use vstd::prelude::*;
use crate::number::Decimal;

verus! {

/// One page of the catalogue listing.
#[derive(Clone, Debug)]
pub struct ApiResponseRoot {
    pub products: ApiResponseItems,
    pub is_successful: bool,
    pub das_facets: Vec<ApiResponseDasFacet>,
}

/// The items of one page and the listing's total item count.
#[derive(Clone, Debug)]
pub struct ApiResponseItems {
    pub items: Vec<ApiResponseItem>,
    pub total_items: usize,
}

/// An entry of the listing: a product, or a promotional tile.
#[derive(Clone, Debug)]
pub enum ApiResponseItem {
    Product(ApiProduct),
    PromoTile(ApiPromoTile),
}

/// A product as the feed describes it.
#[derive(Clone, Debug)]
pub struct ApiProduct {
    pub name: String,
    pub barcode: String,
    pub variety: Option<String>,
    pub brand: String,
    pub slug: String,
    pub sku: Option<String>,
    pub unit: String,
    pub price: ApiResponsePrice,
    pub images: ApiResponseImages,
    pub quantity: ApiResponseQuantity,
    pub stock_level: usize,
    pub each_unit_quantity: Option<String>,
    pub average_weight_per_unit: Option<Decimal>,
    pub size: ApiResponseSize,
    pub departments: Vec<ApiResponseDepartment>,
    pub subs_allowed: bool,
    pub supports_both_each_and_kg_pricing: bool,
    pub availability_status: String,
    pub ad_id: Option<String>,
}

/// A promotional tile among the listing's items.
#[derive(Clone, Debug)]
pub struct ApiPromoTile {
    pub name: String,
    pub id: usize,
    pub link: Option<String>,
    pub content: Option<String>,
}

/// A product's price block.
#[derive(Clone, Debug)]
pub struct ApiResponsePrice {
    pub original_price: Option<Decimal>,
    pub sale_price: Option<Decimal>,
    pub save_price: Option<Decimal>,
    pub save_percentage: Option<Decimal>,
    pub can_show_savings: bool,
    pub has_bonus_points: bool,
    pub is_club_price: bool,
    pub is_special: bool,
    pub is_new: bool,
    pub can_show_original_price: bool,
    pub discount: Option<String>,
    pub total: Option<String>,
    pub is_targeted_offer: bool,
    pub average_price_per_single_unit: Option<Decimal>,
    pub is_boost_offer: bool,
    pub purchasing_unit_price: Option<String>,
    pub ordered_price: Option<String>,
    pub is_using_ordered_price: bool,
    pub current_pricing_matches_ordered_pricing: Option<String>,
    pub extended_list_price: Option<String>,
    pub original_average_price_per_single_unit: Option<String>,
}

/// A product's image addresses.
#[derive(Clone, Debug)]
pub struct ApiResponseImages {
    pub small: String,
    pub big: String,
}

/// A product's ordering quantities.
#[derive(Clone, Debug)]
pub struct ApiResponseQuantity {
    pub min: Option<Decimal>,
    pub max: Option<Decimal>,
    pub increment: Option<Decimal>,
    pub value: Option<String>,
    pub quantity_in_order: Option<String>,
    pub purchasing_quantity_string: Option<String>,
}

/// A product's size block: the unit price and the free-text measures.
#[derive(Clone, Debug)]
pub struct ApiResponseSize {
    pub cup_price: Option<Decimal>,
    pub cup_measure: Option<String>,
    pub package_type: Option<String>,
    pub volume_size: Option<String>,
}

/// A department that a product is listed under.
#[derive(Clone, Debug)]
pub struct ApiResponseDepartment {
    pub id: usize,
    pub name: String,
}

/// A filter facet of the listing; those of the `"Department"` group name
/// the departments.
#[derive(Clone, Debug)]
pub struct ApiResponseDasFacet {
    pub key: String,
    pub value: String,
    pub name: String,
    pub product_count: usize,
    pub group: String,
}

/// A decimal that is absent or well formed.
pub open spec fn opt_wf(d: Option<Decimal>) -> bool {
    d matches Some(x) ==> x.wf()
}

impl ApiProduct {
    /// The decimals that the library computes with are well formed.
    pub open spec fn wf(&self) -> bool {
        &&& opt_wf(self.price.original_price)
        &&& opt_wf(self.price.sale_price)
        &&& opt_wf(self.size.cup_price)
    }
}

fn opt_is_wf(d: &Option<Decimal>) -> (r: bool)
    ensures
        r == opt_wf(*d),
{
    match d {
        Some(x) => x.is_wf(),
        None => true,
    }
}

impl ApiProduct {
    /// Whether the decimals that the library computes with are well formed.
    pub fn is_wf(&self) -> (r: bool)
        ensures
            r == self.wf(),
    {
        opt_is_wf(&self.price.original_price) && opt_is_wf(&self.price.sale_price) && opt_is_wf(&self.size.cup_price)
    }
}

/// The price used for sale logic: the sale price if there is one, else the
/// original price, else zero.
pub open spec fn effective_price(p: ApiProduct) -> Decimal {
    match p.price.sale_price {
        Some(d) => d,
        None => match p.price.original_price {
            Some(d) => d,
            None => Decimal { mantissa: 0, scale: 0 },
        },
    }
}

/// The product's effective price (see `effective_price`).
pub fn get_price(store_product: &ApiProduct) -> (r: Decimal)
    requires
        store_product.wf(),
    ensures
        r == effective_price(*store_product),
        r.wf(),
{
    match store_product.price.sale_price {
        Some(d) => d,
        None => match store_product.price.original_price {
            Some(d) => d,
            None => Decimal::zero(),
        },
    }
}

/// The products among a page's items, in order; promotional tiles are
/// dropped.
pub open spec fn products_in(items: Seq<ApiResponseItem>) -> Seq<ApiProduct>
    decreases items.len(),
{
    if items.len() == 0 {
        Seq::empty()
    } else {
        let rest = products_in(items.drop_last());
        match items.last() {
            ApiResponseItem::Product(p) => rest.push(p),
            ApiResponseItem::PromoTile(_) => rest,
        }
    }
}

/// Keeps the products of a page's items, in order (see `products_in`).
pub fn products_of(items: Vec<ApiResponseItem>) -> (r: Vec<ApiProduct>)
    ensures
        r@ == products_in(items@),
{
    let ghost all = items@;
    let mut out: Vec<ApiProduct> = Vec::new();
    for item in it: items.into_iter()
        invariant
            it.seq() == all,
            out@ == products_in(all.take(it.index() as int)),
    {
        let ghost i = it.index() as int;
        proof {
            assert(all.take(i + 1).drop_last() =~= all.take(i));
        }
        match item {
            ApiResponseItem::Product(p) => out.push(p),
            ApiResponseItem::PromoTile(_) => {},
        }
    }
    proof {
        assert(all.take(all.len() as int) =~= all);
    }
    out
}

} // verus!
