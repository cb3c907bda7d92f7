use data_scraper::api::{
    ApiProduct, ApiResponseImages, ApiResponsePrice, ApiResponseQuantity, ApiResponseSize,
};
use data_scraper::number::{round_to_i32, Decimal, Ratio};
use data_scraper::size::parse_size_unit;

fn dec(mantissa: i64, scale: u32) -> Decimal {
    Decimal { mantissa, scale }
}

fn product(variety: Option<&str>, size: ApiResponseSize) -> ApiProduct {
    ApiProduct {
        name: "Apples".to_string(),
        barcode: "9400000000001".to_string(),
        variety: variety.map(|v| v.to_string()),
        brand: "Fresh".to_string(),
        slug: "apples".to_string(),
        sku: None,
        unit: "Each".to_string(),
        price: ApiResponsePrice {
            original_price: Some(dec(4, 0)),
            sale_price: None,
            save_price: None,
            save_percentage: None,
            can_show_savings: false,
            has_bonus_points: false,
            is_club_price: false,
            is_special: false,
            is_new: false,
            can_show_original_price: false,
            discount: None,
            total: None,
            is_targeted_offer: false,
            average_price_per_single_unit: None,
            is_boost_offer: false,
            purchasing_unit_price: None,
            ordered_price: None,
            is_using_ordered_price: false,
            current_pricing_matches_ordered_pricing: None,
            extended_list_price: None,
            original_average_price_per_single_unit: None,
        },
        images: ApiResponseImages { small: String::new(), big: String::new() },
        quantity: ApiResponseQuantity {
            min: None,
            max: None,
            increment: None,
            value: None,
            quantity_in_order: None,
            purchasing_quantity_string: None,
        },
        stock_level: 0,
        each_unit_quantity: None,
        average_weight_per_unit: None,
        size,
        departments: Vec::new(),
        subs_allowed: false,
        supports_both_each_and_kg_pricing: false,
        availability_status: "In Stock".to_string(),
        ad_id: None,
    }
}

fn size_block(volume: Option<&str>, cup_measure: Option<&str>, cup_price: Option<Decimal>) -> ApiResponseSize {
    ApiResponseSize {
        cup_price,
        cup_measure: cup_measure.map(|s| s.to_string()),
        package_type: None,
        volume_size: volume.map(|s| s.to_string()),
    }
}

fn value(r: Ratio) -> f64 {
    r.num as f64 / r.den as f64
}

#[test]
fn volume_size_pack_sets_quantity() {
    let p = product(None, size_block(Some("3pack"), None, None));
    let (size, quantity, unit) = parse_size_unit(&p, dec(4, 0));
    assert_eq!(quantity, 3);
    assert_eq!(unit, None);
    assert_eq!(size, None);
}

#[test]
fn variety_gives_size_and_unit() {
    let p = product(Some("500ml"), size_block(None, None, None));
    let (size, quantity, unit) = parse_size_unit(&p, dec(4, 0));
    assert_eq!(unit.as_deref(), Some("ml"));
    assert_eq!(value(size.unwrap()), 500.0);
    assert_eq!(quantity, 1);
}

#[test]
fn cup_measure_scales_by_price() {
    let p = product(None, size_block(None, Some("100g"), Some(dec(2, 0))));
    let (size, quantity, unit) = parse_size_unit(&p, dec(4, 0));
    assert_eq!(unit.as_deref(), Some("g"));
    assert_eq!(value(size.unwrap()), 200.0);
    assert_eq!(quantity, 1);
}

#[test]
fn volume_size_gives_size_and_unit() {
    let p = product(Some("500ml"), size_block(Some("1.5kg"), None, None));
    let (size, quantity, unit) = parse_size_unit(&p, dec(4, 0));
    assert_eq!(unit.as_deref(), Some("kg"));
    assert_eq!(size, Some(Ratio { num: 15, den: 10 }));
    assert_eq!(quantity, 1);
}

#[test]
fn variety_with_space_is_ignored() {
    let p = product(Some("Royal Gala"), size_block(None, None, None));
    assert_eq!(parse_size_unit(&p, dec(4, 0)), (None, 1, None));
}

#[test]
fn variety_of_one_unit_is_ignored() {
    let p = product(Some("1kg"), size_block(None, None, None));
    assert_eq!(parse_size_unit(&p, dec(4, 0)), (None, 1, None));
}

#[test]
fn cup_measure_each_sets_quantity() {
    // 1ea at 0.50 each, price 3.00: six in the pack
    let p = product(None, size_block(None, Some("1ea"), Some(dec(50, 2))));
    let (size, quantity, unit) = parse_size_unit(&p, dec(300, 2));
    assert_eq!(quantity, 6);
    assert_eq!(size, None);
    assert_eq!(unit, None);
}

#[test]
fn cup_measure_divides_by_pack_quantity() {
    // 2 packs; 1kg at 10.00 per kg, price 5.00: 0.25kg each
    let p = product(None, size_block(Some("2pack"), Some("1kg"), Some(dec(10, 0))));
    let (size, quantity, unit) = parse_size_unit(&p, dec(5, 0));
    assert_eq!(quantity, 2);
    assert_eq!(unit.as_deref(), Some("kg"));
    assert_eq!(value(size.unwrap()), 0.25);
}

#[test]
fn cup_price_zero_leaves_reading() {
    let p = product(None, size_block(None, Some("100g"), Some(dec(0, 0))));
    assert_eq!(parse_size_unit(&p, dec(4, 0)), (None, 1, None));
}

#[test]
fn rounding_half_away_from_zero() {
    assert_eq!(round_to_i32(Ratio { num: 5, den: 2 }), 3);
    assert_eq!(round_to_i32(Ratio { num: -5, den: 2 }), -3);
    assert_eq!(round_to_i32(Ratio { num: 7, den: 3 }), 2);
    assert_eq!(round_to_i32(Ratio { num: 10_000_000_000, den: 1 }), i32::MAX);
}
