use vtex_dataload::dispatch::{aggregate, classify_response, DispatchOutcome, Dispatcher};
use vtex_dataload::lookup::{parse_brands, LookupTable, NameTable};
use vtex_dataload::model::{BrandList, Product};
use vtex_dataload::resolve::{apply_product_ids, product_refs_to_fetch, resolve_product,
    SkipReason, SkuDependency};

fn brand_row(id: i32, name: &str) -> BrandList {
    BrandList {
        id,
        name: name.to_string(),
        is_active: true,
        title: None,
        meta_tag_description: None,
        image_url: None,
    }
}

fn input_product(ref_id: &str, brand: &str) -> Product {
    Product {
        id: None,
        name: ref_id.to_string(),
        department_id: None,
        category_id: None,
        category_unique_identifier: None,
        brand_id: None,
        brand_name: Some(brand.to_string()),
        link_id: None,
        ref_id: Some(ref_id.to_string()),
        is_visible: None,
        description: None,
        description_short: None,
        release_date: None,
        key_words: None,
        title: None,
        is_active: None,
        tax_code: None,
        meta_tag_description: None,
        supplier_id: None,
        show_without_stock: None,
        ad_words_remarketing_code: None,
        lomadee_campaign_code: None,
        score: None,
    }
}

fn dep(sku: &str, product: &str, id: Option<i32>) -> SkuDependency {
    SkuDependency {
        sku_ref_id: sku.to_string(),
        product_ref_id: product.to_string(),
        product_id: id,
    }
}

#[test]
fn three_rows_one_unknown_brand() {
    // Three input rows, one with an unknown brand name: the two resolvable
    // rows are submitted and succeed, the third is skipped with a reason
    // naming the brand.
    let brands = parse_brands(vec![brand_row(1, "Nike"), brand_row(2, "Adidas")]);
    let names = NameTable::new();
    let categories = LookupTable::new();
    let rows = vec![
        input_product("P1", "Nike"),
        input_product("P2", "Zara"),
        input_product("P3", "Adidas"),
    ];
    let mut resolved: Vec<Product> = Vec::new();
    let mut skipped: Vec<SkipReason> = Vec::new();
    for row in rows {
        match resolve_product(row, &names, &categories, &brands, true) {
            Ok(p) => resolved.push(p),
            Err(reason) => skipped.push(reason),
        }
    }
    assert_eq!(resolved.len(), 2);
    assert_eq!(skipped.len(), 1);
    assert_eq!(skipped[0].message(), "brand not found: Zara".to_string());

    let mut dispatcher = Dispatcher::new(resolved, 2);
    while dispatcher.can_start() {
        let _record = dispatcher.start_next();
        dispatcher.complete(classify_response(200, "created".to_string()));
    }
    assert!(dispatcher.is_done());
    let summary = aggregate(dispatcher.outcomes(), skipped.len());
    assert_eq!(summary.succeeded, 2);
    assert_eq!(summary.skipped, 1);
    assert_eq!(summary.remote_errors, 0);
    assert_eq!(summary.transport_errors, 0);
}

#[test]
fn resolved_product_carries_looked_up_ids() {
    let brands = parse_brands(vec![brand_row(9, "Nike")]);
    let mut names = NameTable::new();
    names.insert("CAT_SHOES".to_string(), "Shoes".to_string());
    let mut categories = LookupTable::new();
    categories.insert("Shoes".to_string(), 77);

    let mut row = input_product("P1", "Nike");
    row.category_unique_identifier = Some("CAT_SHOES".to_string());
    let resolved = resolve_product(row, &names, &categories, &brands, false).unwrap();
    assert_eq!(resolved.category_id, Some(77));
    assert_eq!(resolved.brand_id, Some(9));
    assert_eq!(resolved.ref_id, Some("P1".to_string()));
}

#[test]
fn category_errors_take_precedence_and_name_the_key() {
    let brands = parse_brands(vec![brand_row(9, "Nike")]);
    let names = NameTable::new();
    let categories = LookupTable::new();

    let row = input_product("P1", "Nike");
    let err = resolve_product(row, &names, &categories, &brands, false).unwrap_err();
    assert_eq!(err, SkipReason::MissingCategoryIdentifier);
    assert_eq!(err.message(), "category unique identifier missing".to_string());

    let mut row = input_product("P1", "Nike");
    row.category_unique_identifier = Some("CAT_HATS".to_string());
    let err = resolve_product(row, &names, &categories, &brands, false).unwrap_err();
    assert_eq!(
        err,
        SkipReason::CategoryNameNotFound { identifier: "CAT_HATS".to_string() }
    );
    assert_eq!(err.message(), "category name not found: CAT_HATS".to_string());

    let mut names = NameTable::new();
    names.insert("CAT_HATS".to_string(), "Hats".to_string());
    let mut row = input_product("P1", "Nike");
    row.category_unique_identifier = Some("CAT_HATS".to_string());
    let err = resolve_product(row, &names, &categories, &brands, false).unwrap_err();
    assert_eq!(err, SkipReason::CategoryIdNotFound { name: "Hats".to_string() });
    assert_eq!(err.message(), "category id not found: Hats".to_string());
}

#[test]
fn missing_brand_name_is_its_own_reason() {
    let brands = parse_brands(vec![brand_row(9, "Nike")]);
    let names = NameTable::new();
    let categories = LookupTable::new();
    let mut row = input_product("P1", "Nike");
    row.brand_name = None;
    let err = resolve_product(row, &names, &categories, &brands, true).unwrap_err();
    assert_eq!(err, SkipReason::MissingBrandName);
    assert_eq!(err.message(), "brand name missing".to_string());
}

#[test]
fn shared_reference_id_costs_one_lookup() {
    // One hundred rows sharing one product reference id lead to a single
    // remote lookup.
    let cache = LookupTable::new();
    let mut rows: Vec<SkuDependency> = Vec::new();
    for k in 0..100 {
        rows.push(dep(&format!("S{}", k), "P1", None));
    }
    let refs = product_refs_to_fetch(&rows, &cache);
    assert_eq!(refs.len(), 1);
    assert_eq!(refs[0], "P1".to_string());
}

#[test]
fn cached_reference_ids_are_not_fetched_again() {
    let mut cache = LookupTable::new();
    cache.insert("P1".to_string(), 500);
    let rows = vec![dep("S1", "P1", None), dep("S2", "P2", None), dep("S3", "P3", Some(7))];
    let refs = product_refs_to_fetch(&rows, &cache);
    assert_eq!(refs, vec!["P2".to_string()]);
}

#[test]
fn apply_fills_cached_ids_and_skips_unknown_refs() {
    let mut cache = LookupTable::new();
    cache.insert("P1".to_string(), 500);
    let rows = vec![dep("S1", "P1", None), dep("S2", "P2", None), dep("S3", "P3", Some(7))];
    let (resolved, skipped) = apply_product_ids(&rows, &cache);
    assert_eq!(resolved.len() + skipped.len(), rows.len());
    assert_eq!(resolved.len(), 2);
    assert_eq!(resolved[0].product_id, Some(500));
    assert_eq!(resolved[0].sku_ref_id, "S1".to_string());
    assert_eq!(resolved[1].product_id, Some(7));
    assert_eq!(skipped.len(), 1);
    assert_eq!(skipped[0].0.sku_ref_id, "S2".to_string());
    assert_eq!(
        skipped[0].1.message(),
        "product not found for ref id: P2".to_string()
    );
}

#[test]
fn remote_error_reason_keeps_reference_id() {
    let reason = SkipReason::ProductRefNotFound { product_ref_id: "P404".to_string() };
    assert_eq!(reason.message(), "product not found for ref id: P404".to_string());
    let reason = SkipReason::BrandNotFound { name: "Zara".to_string() };
    assert_eq!(reason.message(), "brand not found: Zara".to_string());
}

#[test]
fn outcome_counts_add_up_across_kinds() {
    let outcomes = vec![
        classify_response(200, "ok".to_string()),
        classify_response(429, "slow down".to_string()),
        DispatchOutcome::TransportError { message: "timed out".to_string() },
        classify_response(201, "created".to_string()),
        classify_response(500, "boom".to_string()),
    ];
    let summary = aggregate(&outcomes, 3);
    assert_eq!(summary.succeeded, 2);
    assert_eq!(summary.remote_errors, 2);
    assert_eq!(summary.transport_errors, 1);
    assert_eq!(summary.skipped, 3);
    assert_eq!(
        summary.succeeded + summary.skipped + summary.remote_errors + summary.transport_errors,
        outcomes.len() + 3
    );
}
