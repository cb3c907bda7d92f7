use data_scraper::api::{
    ApiProduct, ApiResponseImages, ApiResponsePrice, ApiResponseQuantity, ApiResponseSize,
};
use data_scraper::matcher::{CatalogProduct, MatchStep, ProductMatcher, INVALID};
use data_scraper::number::Decimal;
use data_scraper::prices::matched_prices;

fn dec(mantissa: i64, scale: u32) -> Decimal {
    Decimal { mantissa, scale }
}

fn product(variety: Option<&str>, size: ApiResponseSize) -> ApiProduct {
    ApiProduct {
        name: "Apples".to_string(),
        barcode: "9400000000001".to_string(),
        variety: variety.map(|v| v.to_string()),
        brand: "Fresh".to_string(),
        slug: "apples".to_string(),
        sku: None,
        unit: "Each".to_string(),
        price: ApiResponsePrice {
            original_price: Some(dec(4, 0)),
            sale_price: None,
            save_price: None,
            save_percentage: None,
            can_show_savings: false,
            has_bonus_points: false,
            is_club_price: false,
            is_special: false,
            is_new: false,
            can_show_original_price: false,
            discount: None,
            total: None,
            is_targeted_offer: false,
            average_price_per_single_unit: None,
            is_boost_offer: false,
            purchasing_unit_price: None,
            ordered_price: None,
            is_using_ordered_price: false,
            current_pricing_matches_ordered_pricing: None,
            extended_list_price: None,
            original_average_price_per_single_unit: None,
        },
        images: ApiResponseImages { small: String::new(), big: String::new() },
        quantity: ApiResponseQuantity {
            min: None,
            max: None,
            increment: None,
            value: None,
            quantity_in_order: None,
            purchasing_quantity_string: None,
        },
        stock_level: 0,
        each_unit_quantity: None,
        average_weight_per_unit: None,
        size,
        departments: Vec::new(),
        subs_allowed: false,
        supports_both_each_and_kg_pricing: false,
        availability_status: "In Stock".to_string(),
        ad_id: None,
    }
}

fn size_block(volume: Option<&str>, cup_measure: Option<&str>, cup_price: Option<Decimal>) -> ApiResponseSize {
    ApiResponseSize {
        cup_price,
        cup_measure: cup_measure.map(|s| s.to_string()),
        package_type: None,
        volume_size: volume.map(|s| s.to_string()),
    }
}

fn priced(barcode: &str, sale: Option<Decimal>, original: Option<Decimal>) -> ApiProduct {
    let mut p = product(Some("500ml"), size_block(None, None, None));
    p.barcode = barcode.to_string();
    p.price.sale_price = sale;
    p.price.original_price = original;
    p.images.big = "https://img/x.jpg?w=100&impolicy=abc&h=50".to_string();
    p
}

fn known(id: i32, barcode: Option<&str>) -> CatalogProduct {
    CatalogProduct {
        product_id: id,
        title: "Known".to_string(),
        variety: None,
        brand: None,
        image_url: None,
        barcode: barcode.map(|b| b.to_string()),
        size: None,
        unit: None,
        quantity: 1,
    }
}

#[test]
fn zero_price_is_invalid_and_leaves_catalog() {
    let mut m = ProductMatcher::new(vec![known(7, Some("111"))]);
    let step = m.next(&priced("999", None, None));
    assert!(matches!(step, MatchStep::Invalid));
    assert!(!m.is_awaiting_store());
    let step = m.next(&priced("111", Some(dec(0, 2)), Some(dec(5, 0))));
    assert!(matches!(step, MatchStep::Invalid));
    let (catalog, ids) = m.finish();
    assert_eq!(ids, vec![INVALID, INVALID]);
    assert_eq!(catalog.len(), 1);
}

#[test]
fn known_barcode_matches_first_entry() {
    let mut m = ProductMatcher::new(vec![known(3, None), known(7, Some("111")), known(8, Some("111"))]);
    let step = m.next(&priced("111", Some(dec(2, 0)), None));
    assert!(matches!(step, MatchStep::Matched(7)));
    let (catalog, ids) = m.finish();
    assert_eq!(ids, vec![7]);
    assert_eq!(catalog.len(), 3);
}

#[test]
fn new_barcode_is_created_once() {
    let mut m = ProductMatcher::new(vec![known(7, Some("111"))]);
    let step = m.next(&priced("222", None, Some(dec(4, 0))));
    let np = match step {
        MatchStep::Create(np) => np,
        other => panic!("expected a creation, got {:?}", other),
    };
    assert_eq!(np.barcode, "222");
    assert_eq!(np.title, "Apples");
    assert_eq!(np.brand.as_deref(), Some("Fresh"));
    assert_eq!(np.unit.as_deref(), Some("ml"));
    assert_eq!(np.image_url.as_deref(), Some("https://img/x.jpg?impolicy=abc"));
    assert!(m.is_awaiting_store());
    assert!(m.created(42));
    assert!(!m.created(43));
    // the same barcode later in the pass finds the new entry
    let step = m.next(&priced("222", Some(dec(3, 0)), None));
    assert!(matches!(step, MatchStep::Matched(42)));
    let (catalog, ids) = m.finish();
    assert_eq!(ids, vec![42, 42]);
    assert_eq!(catalog.len(), 2);
    assert_eq!(catalog[1].product_id, 42);
    assert_eq!(catalog[1].barcode.as_deref(), Some("222"));
}

#[test]
fn prices_skip_invalid_ids() {
    let products = vec![
        priced("1", Some(dec(250, 2)), Some(dec(300, 2))),
        priced("2", None, None),
        priced("3", None, Some(dec(4, 0))),
    ];
    let ids = vec![10, INVALID, 30];
    let obs = matched_prices(&products, &ids, 5);
    assert_eq!(obs.len(), 2);
    assert_eq!(obs[0].product_id, 10);
    assert_eq!(obs[0].location_id, 5);
    assert_eq!(obs[0].price, dec(250, 2));
    assert_eq!(obs[0].original_price, Some(dec(300, 2)));
    assert_eq!(obs[0].on_special, Some(false));
    assert_eq!(obs[1].product_id, 30);
    assert_eq!(obs[1].price, dec(4, 0));
}

#[test]
fn prices_pair_by_position() {
    let products = vec![priced("1", Some(dec(1, 0)), None), priced("2", Some(dec(2, 0)), None)];
    let obs = matched_prices(&products, &vec![9], 1);
    assert_eq!(obs.len(), 1);
    assert_eq!(obs[0].product_id, 9);
    assert_eq!(obs[0].price, dec(1, 0));
}

#[test]
fn unpriced_pass_keeps_catalog() {
    let mut m = ProductMatcher::new(vec![known(7, Some("111"))]);
    for b in ["111", "222", "333"] {
        assert!(matches!(m.next(&priced(b, None, None)), MatchStep::Invalid));
    }
    assert!(!m.is_awaiting_store());
    let (catalog, ids) = m.finish();
    assert_eq!(ids, vec![INVALID; 3]);
    assert_eq!(catalog.len(), 1);
    assert_eq!(catalog[0].product_id, 7);
}
