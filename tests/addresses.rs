use data_scraper::config::{ConfigError, EnvConfig, DEFAULT_MAX_PRODUCTS_SCRAPE};
use data_scraper::departments::{department_slug, department_slugs, hyphenate};
use data_scraper::api::ApiResponseDasFacet;
use data_scraper::image::{get_large_image, impolicy_only};
use data_scraper::query::page_query;

fn facet(name: &str, group: &str) -> ApiResponseDasFacet {
    ApiResponseDasFacet {
        key: group.to_string(),
        value: "1".to_string(),
        name: name.to_string(),
        product_count: 10,
        group: group.to_string(),
    }
}

fn pairs(v: &[(&str, &str)]) -> Vec<(String, String)> {
    v.iter().map(|(a, b)| (a.to_string(), b.to_string())).collect()
}

#[test]
fn image_keeps_only_impolicy() {
    assert_eq!(
        get_large_image("https://img/x.jpg?w=100&impolicy=abc&h=50").as_deref(),
        Some("https://img/x.jpg?impolicy=abc")
    );
}

#[test]
fn image_without_impolicy_has_empty_query() {
    assert_eq!(get_large_image("https://img/x.jpg?w=100").as_deref(), Some("https://img/x.jpg?"));
}

#[test]
fn image_last_impolicy_wins() {
    assert_eq!(
        get_large_image("https://img/x.jpg?impolicy=a&impolicy=b").as_deref(),
        Some("https://img/x.jpg?impolicy=b")
    );
}

#[test]
fn image_unparsable_is_none() {
    assert_eq!(get_large_image("not a url"), None);
}

#[test]
fn department_names_become_slugs() {
    assert_eq!(department_slug("Fruit & Veg"), "fruit-veg");
    assert_eq!(department_slug("Fish, Seafood"), "fish-seafood");
    assert_eq!(department_slug("Beer  Wine"), "beer-wine");
}

#[test]
fn department_facets_filtered_by_group() {
    let facets = vec![
        facet("Fruit & Veg", "Department"),
        facet("Specials", "Promotions"),
        facet("Fish, Seafood", "Department"),
    ];
    assert_eq!(department_slugs(&facets), vec!["fruit-veg".to_string(), "fish-seafood".to_string()]);
}

#[test]
fn query_for_root_listing() {
    assert_eq!(
        page_query(None, 1, 120),
        pairs(&[("target", "browse"), ("inStockProductsOnly", "false"), ("page", "1"), ("size", "120")])
    );
}

#[test]
fn query_for_department() {
    assert_eq!(
        page_query(Some("fruit-veg"), 2, 30),
        pairs(&[
            ("target", "browse"),
            ("inStockProductsOnly", "false"),
            ("page", "2"),
            ("size", "30"),
            ("dasFilter", "Department;;fruit-veg;false"),
        ])
    );
}

#[test]
fn config_defaults_cap() {
    let c = EnvConfig::from_values(Some("postgres://db".to_string()), None).unwrap();
    assert_eq!(c.db_connection_uri, "postgres://db");
    assert_eq!(c.max_products_scrape, DEFAULT_MAX_PRODUCTS_SCRAPE);
    let c = EnvConfig::from_values(Some("postgres://db".to_string()), Some("500".to_string())).unwrap();
    assert_eq!(c.max_products_scrape, 500);
}

#[test]
fn config_errors() {
    assert_eq!(EnvConfig::from_values(None, None).unwrap_err(), ConfigError::MissingDatabaseUrl);
    assert_eq!(
        EnvConfig::from_values(Some("x".to_string()), Some("lots".to_string())).unwrap_err(),
        ConfigError::InvalidMaxProducts
    );
}

#[test]
fn impolicy_only_keeps_last_value() {
    assert_eq!(impolicy_only(&pairs(&[("w", "100"), ("impolicy", "abc"), ("h", "50")])), "impolicy=abc");
    assert_eq!(impolicy_only(&pairs(&[("impolicy", "a"), ("impolicy", "b")])), "impolicy=b");
    assert_eq!(impolicy_only(&pairs(&[("w", "100")])), "");
    assert_eq!(impolicy_only(&Vec::new()), "");
}

#[test]
fn hyphenate_collapses_whitespace_runs() {
    assert_eq!(hyphenate("fruit  veg"), "fruit-veg");
    assert_eq!(hyphenate(" a\tb "), "-a-b-");
    assert_eq!(hyphenate(""), "");
}
