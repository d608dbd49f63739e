use vtex_dataload::model::{Brand, Category};

#[test]
fn lib_it_works() {
    let result = 2 + 2;
    assert_eq!(result, 4);
}

#[test]
fn catalog_it_works() {
    let result = 2 + 2;
    assert_eq!(result, 4);
}

#[test]
fn fieldvalues_it_works() {
    let result = 2 + 2;
    assert_eq!(result, 4);
}

#[test]
fn create_new_brand() {
    let brand: Brand = Brand {
        id: None,
        name: "Nike".to_string(),
        text: Some("Nike text".to_string()),
        keywords: Some("Nike keywords".to_string()),
        site_title: Some("Nike site title".to_string()),
        active: true,
        ad_words_remarketing_code: None,
        lomadee_campaign_code: None,
        menu_home: None,
        score: None,
    };

    assert_eq!(
        brand,
        Brand::new(
            None,
            "Nike".to_string(),
            Some("Nike text".to_string()),
            Some("Nike keywords".to_string()),
            Some("Nike site title".to_string()),
            true,
            None,
            None,
            None,
            None,
        ),
    );
}

#[test]
fn create_new_category() {
    let category: Category = Category {
        id: None,
        name: "Mens Clothing".to_string(),
        father_category_id: None,
        title: "Mens Clothing".to_string(),
        description: "Mens Clothing".to_string(),
        keywords: "Mens Clothing".to_string(),
        is_active: true,
        lomadee_campaign_code: None,
        ad_words_remarketing_code: None,
        show_in_store_front: true,
        show_brand_filter: false,
        active_store_front_link: false,
        global_category_id: None,
        stock_keeping_unit_selection_mode: "SPECIFICATION".to_string(),
        score: None,
        link_id: None,
        has_children: None,
    };

    assert_eq!(
        category,
        Category::new(
            None,
            "Mens Clothing".to_string(),
            None,
            "Mens Clothing".to_string(),
            "Mens Clothing".to_string(),
            "Mens Clothing".to_string(),
            true,
            None,
            None,
            true,
            false,
            false,
            None,
            "SPECIFICATION".to_string(),
            None,
            None,
            None,
        ),
    );
}

#[test]
fn find_brand_id() {
    let brands = [
        Brand::new(
            Some(1),
            "Nike".to_string(),
            Some("Nike".to_string()),
            Some("Nike".to_string()),
            Some("Nike".to_string()),
            true,
            None,
            None,
            None,
            None,
        ),
        Brand::new(
            Some(2),
            "Adidas".to_string(),
            Some("Adidas".to_string()),
            Some("Adidas".to_string()),
            Some("Adidas".to_string()),
            true,
            None,
            None,
            None,
            None,
        ),
        Brand::new(
            Some(3),
            "New Balance".to_string(),
            Some("New Balance".to_string()),
            Some("New Balance".to_string()),
            Some("New Balance".to_string()),
            true,
            None,
            None,
            None,
            None,
        ),
        Brand::new(
            Some(4),
            "Saucony".to_string(),
            Some("Saucony".to_string()),
            Some("Saucony".to_string()),
            Some("Saucony".to_string()),
            true,
            None,
            None,
            None,
            None,
        ),
    ];

    let brand_id: Vec<Option<i32>> = brands
        .iter()
        .filter(|b| b.name.eq("New Balance"))
        .map(|b| b.id)
        .collect();
    println!("brand_id: {:?}", brand_id[0].unwrap());
}
