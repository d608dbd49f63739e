use vtex_dataload::brandfile::build_brand_rows;
use vtex_dataload::lookup::{add_category_fields, add_field_values, category_nodes,
    composite_key, create_category_name_lookup, create_product_id_lookup,
    create_product_parent_category_lookup, create_sku_id_lookup,
    create_sku_product_ref_id_lookup, parse_brands, parse_category_tree, parse_spec_groups,
    product_lookup_rows, LookupTable};
use vtex_dataload::model::{BrandList, CatRecord, CategoryTree, FieldValueList, Product,
    SkuLookup, SpecificationGroup, SpecificationList};
use vtex_dataload::numtext::{i32_to_string, parse_i32, u64_to_string};
use vtex_dataload::resolve::SkuDependency;
use vtex_dataload::specvalues::collect_allowed_values;

fn brand_row(id: i32, name: &str) -> BrandList {
    BrandList {
        id,
        name: name.to_string(),
        is_active: true,
        title: None,
        meta_tag_description: None,
        image_url: None,
    }
}

fn product_row(ref_id: &str, identifier: &str) -> Product {
    Product {
        id: None,
        name: ref_id.to_string(),
        department_id: None,
        category_id: None,
        category_unique_identifier: Some(identifier.to_string()),
        brand_id: None,
        brand_name: None,
        link_id: None,
        ref_id: Some(ref_id.to_string()),
        is_visible: None,
        description: None,
        description_short: None,
        release_date: None,
        key_words: None,
        title: None,
        is_active: None,
        tax_code: None,
        meta_tag_description: None,
        supplier_id: None,
        show_without_stock: None,
        ad_words_remarketing_code: None,
        lomadee_campaign_code: None,
        score: None,
    }
}

#[test]
fn category_tree_flattens_to_both_levels() {
    let child = CategoryTree::new(2, "Running".to_string(), false, None, None, None, None);
    let root = CategoryTree::new(
        1,
        "Shoes".to_string(),
        true,
        None,
        None,
        None,
        Some(vec![child]),
    );
    let table = parse_category_tree(vec![root]);
    assert_eq!(table.len(), 2);
    assert_eq!(table.get("Shoes"), Some(1));
    assert_eq!(table.get("Running"), Some(2));
    assert_eq!(table.get("Sandals"), None);
}

#[test]
fn category_tree_depth_beyond_two_is_flattened() {
    let grandchild = CategoryTree::new(3, "Trail".to_string(), false, None, None, None, None);
    let child = CategoryTree::new(
        2,
        "Running".to_string(),
        true,
        None,
        None,
        None,
        Some(vec![grandchild]),
    );
    let root = CategoryTree::new(
        1,
        "Shoes".to_string(),
        true,
        None,
        None,
        None,
        Some(vec![child]),
    );
    let table = parse_category_tree(vec![root]);
    assert_eq!(table.len(), 3);
    assert_eq!(table.get("Trail"), Some(3));
}

#[test]
fn category_tree_duplicate_name_last_write_wins() {
    let first = CategoryTree::new(10, "Shoes".to_string(), false, None, None, None, None);
    let second = CategoryTree::new(20, "Shoes".to_string(), false, None, None, None, None);
    let table = parse_category_tree(vec![first, second]);
    assert_eq!(table.len(), 1);
    assert_eq!(table.get("Shoes"), Some(20));
}

#[test]
fn brand_lookup_maps_names_to_ids() {
    let table = parse_brands(vec![brand_row(1, "Nike"), brand_row(2, "Adidas")]);
    assert_eq!(table.get("Nike"), Some(1));
    assert_eq!(table.get("Adidas"), Some(2));
    assert_eq!(table.get("Saucony"), None);
}

#[test]
fn spec_group_lookup_maps_names_to_ids() {
    let groups = vec![SpecificationGroup::new(
        Some(7),
        "Default".to_string(),
        Some(1),
        None,
    )];
    let table = parse_spec_groups(groups);
    assert_eq!(table.get("Default"), Some(7));
}

#[test]
fn composite_keys_render_id_bar_name() {
    assert_eq!(composite_key(12, "Color"), "12|Color".to_string());
    assert_eq!(composite_key(-3, "Size"), "-3|Size".to_string());
}

#[test]
fn decimal_rendering_matches_expected_digits() {
    assert_eq!(u64_to_string(0), "0".to_string());
    assert_eq!(u64_to_string(1234), "1234".to_string());
    assert_eq!(i32_to_string(-45), "-45".to_string());
    assert_eq!(i32_to_string(2147483647), "2147483647".to_string());
    assert_eq!(i32_to_string(-2147483648), "-2147483648".to_string());
}

#[test]
fn field_id_lookup_uses_composite_keys() {
    let mut table = LookupTable::new();
    let fields = vec![SpecificationList {
        name: "Color".to_string(),
        category_id: Some(5),
        field_id: 31,
        is_active: true,
        is_stock_keeping_unit: true,
    }];
    add_category_fields(&mut table, 5, &fields);
    assert_eq!(table.get("5|Color"), Some(31));
    assert_eq!(table.get("5|Size"), None);
}

#[test]
fn field_value_id_lookup_uses_composite_keys() {
    let mut table = LookupTable::new();
    let values = vec![
        FieldValueList {
            field_value_id: 101,
            value: "Red".to_string(),
            is_active: true,
            position: 1,
        },
        FieldValueList {
            field_value_id: 102,
            value: "Blue".to_string(),
            is_active: true,
            position: 2,
        },
    ];
    add_field_values(&mut table, 31, &values);
    assert_eq!(table.get("31|Red"), Some(101));
    assert_eq!(table.get("31|Blue"), Some(102));
}

#[test]
fn category_name_lookup_maps_identifier_to_name() {
    let rows = vec![CatRecord {
        group_identifier: "CAT_SHOES".to_string(),
        parent_group_identifier: "".to_string(),
        top_group: true,
        sequence: 1,
        name: "Shoes".to_string(),
        short_description: "".to_string(),
        long_description: "".to_string(),
        thumbnail: "".to_string(),
        full_image: "".to_string(),
        field1: "".to_string(),
        published: 1,
        delete: 0,
    }];
    let table = create_category_name_lookup(rows);
    assert_eq!(table.get("CAT_SHOES"), Some("Shoes".to_string()));
    assert_eq!(table.get("CAT_HATS"), None);
}

#[test]
fn product_lookup_artifact_round_trips() {
    // A record created under an assigned id, written to the derived lookup
    // artifact, is re-read by the next stage and resolves to the same id.
    let created = vec![
        ("P000222475".to_string(), 99),
        ("P000222476".to_string(), 100),
    ];
    let rows = product_lookup_rows(&created);
    assert_eq!(rows.len(), 2);
    assert_eq!(rows[0].part_number, "P000222475".to_string());
    let table = create_product_id_lookup(rows);
    assert_eq!(table.get("P000222475"), Some(99));
    assert_eq!(table.get("P000222476"), Some(100));
}

#[test]
fn sku_lookup_artifact_round_trips() {
    let rows = vec![SkuLookup { part_number: "S1".to_string(), sku_id: 42 }];
    let table = create_sku_id_lookup(rows);
    assert_eq!(table.get("S1"), Some(42));
}

#[test]
fn product_parent_category_lookup_joins_on_ref_id() {
    let rows = vec![product_row("P1", "CAT_SHOES"), product_row("P2", "CAT_HATS")];
    let table = create_product_parent_category_lookup(&rows);
    assert_eq!(table.get("P1"), Some("CAT_SHOES".to_string()));
    assert_eq!(table.get("P2"), Some("CAT_HATS".to_string()));
}

#[test]
fn sku_product_ref_lookup_joins_on_sku_ref() {
    let rows = vec![SkuDependency {
        sku_ref_id: "S1".to_string(),
        product_ref_id: "P1".to_string(),
        product_id: None,
    }];
    let table = create_sku_product_ref_id_lookup(&rows);
    assert_eq!(table.get("S1"), Some("P1".to_string()));
}

#[test]
fn brand_rows_are_distinct_and_first_occurrence_ordered() {
    let mut p1 = product_row("P1", "CAT");
    p1.brand_name = Some("Nike".to_string());
    let mut p2 = product_row("P2", "CAT");
    p2.brand_name = Some("Adidas".to_string());
    let mut p3 = product_row("P3", "CAT");
    p3.brand_name = Some("Nike".to_string());
    let brands = build_brand_rows(&vec![p1, p2, p3]);
    assert_eq!(brands.len(), 2);
    assert_eq!(brands[0].name, "Nike".to_string());
    assert_eq!(brands[1].name, "Adidas".to_string());
    assert_eq!(brands[0].text, Some("Nike".to_string()));
    assert_eq!(brands[0].keywords, Some("Nike".to_string()));
    assert_eq!(brands[0].menu_home, Some("false".to_string()));
    assert!(brands[0].active);
    assert_eq!(brands[0].id, None);
}

#[test]
fn category_nodes_list_depth_first() {
    let grandchild = CategoryTree::new(3, "Trail".to_string(), false, None, None, None, None);
    let child = CategoryTree::new(
        2,
        "Running".to_string(),
        true,
        None,
        None,
        None,
        Some(vec![grandchild]),
    );
    let root = CategoryTree::new(
        1,
        "Shoes".to_string(),
        true,
        None,
        None,
        None,
        Some(vec![child]),
    );
    let sibling = CategoryTree::new(4, "Hats".to_string(), false, None, None, None, None);
    let nodes = category_nodes(&vec![root, sibling]);
    assert_eq!(
        nodes,
        vec![
            (1, "Shoes".to_string()),
            (2, "Running".to_string()),
            (3, "Trail".to_string()),
            (4, "Hats".to_string()),
        ]
    );
}

#[test]
fn allowed_values_group_by_product() {
    let rows: Vec<(i32, Option<String>)> = vec![
        (1, Some("Red".to_string())),
        (2, Some("M".to_string())),
        (1, Some("Red".to_string())),
        (1, Some("Blue".to_string())),
        (3, None),
    ];
    let groups = collect_allowed_values(&rows);
    assert_eq!(groups.len(), 2);
    assert_eq!(groups[0].0, 1);
    assert_eq!(groups[0].1, vec!["Red".to_string(), "Blue".to_string()]);
    assert_eq!(groups[1].0, 2);
    assert_eq!(groups[1].1, vec!["M".to_string()]);
}

#[test]
fn decimal_parsing_matches_std_shapes() {
    assert_eq!(parse_i32("0"), Some(0));
    assert_eq!(parse_i32("314159"), Some(314159));
    assert_eq!(parse_i32("-45"), Some(-45));
    assert_eq!(parse_i32("+45"), Some(45));
    assert_eq!(parse_i32("00000000000"), Some(0));
    assert_eq!(parse_i32("2147483647"), Some(2147483647));
    assert_eq!(parse_i32("2147483648"), None);
    assert_eq!(parse_i32("-2147483648"), Some(-2147483648));
    assert_eq!(parse_i32("-2147483649"), None);
    assert_eq!(parse_i32(""), None);
    assert_eq!(parse_i32("-"), None);
    assert_eq!(parse_i32("12a"), None);
    assert_eq!(parse_i32(" 12"), None);
}
