//! Catalog entity records: the shapes that rows of the tabular inputs and
//! payloads of the remote catalog service take inside this library.
//!
//! Every field is a plain value, so contracts elsewhere can speak about the
//! records directly. Constructors state exactly which record they build.

use vstd::prelude::*;

verus! {

/// A catalog category as submitted to or read from the remote service.
#[derive(Debug, PartialEq, Clone)]
pub struct Category {
    pub id: Option<i32>,
    pub name: String,
    pub father_category_id: Option<i32>,
    pub title: String,
    pub description: String,
    pub keywords: String,
    pub is_active: bool,
    pub lomadee_campaign_code: Option<String>,
    pub ad_words_remarketing_code: Option<String>,
    pub show_in_store_front: bool,
    pub show_brand_filter: bool,
    pub active_store_front_link: bool,
    pub global_category_id: Option<i32>,
    pub stock_keeping_unit_selection_mode: String,
    pub score: Option<i32>,
    pub link_id: Option<String>,
    pub has_children: Option<bool>,
}

impl Category {
    pub fn new(
        id: Option<i32>,
        name: String,
        father_category_id: Option<i32>,
        title: String,
        description: String,
        keywords: String,
        is_active: bool,
        lomadee_campaign_code: Option<String>,
        ad_words_remarketing_code: Option<String>,
        show_in_store_front: bool,
        show_brand_filter: bool,
        active_store_front_link: bool,
        global_category_id: Option<i32>,
        stock_keeping_unit_selection_mode: String,
        score: Option<i32>,
        link_id: Option<String>,
        has_children: Option<bool>,
    ) -> (c: Category)
        ensures
            c == (Category {
                id,
                name,
                father_category_id,
                title,
                description,
                keywords,
                is_active,
                lomadee_campaign_code,
                ad_words_remarketing_code,
                show_in_store_front,
                show_brand_filter,
                active_store_front_link,
                global_category_id,
                stock_keeping_unit_selection_mode,
                score,
                link_id,
                has_children,
            }),
    {
        Category {
            id,
            name,
            father_category_id,
            title,
            description,
            keywords,
            is_active,
            lomadee_campaign_code,
            ad_words_remarketing_code,
            show_in_store_front,
            show_brand_filter,
            active_store_front_link,
            global_category_id,
            stock_keeping_unit_selection_mode,
            score,
            link_id,
            has_children,
        }
    }
}

/// One node of the remote category tree; children are present when the
/// service expanded the node.
#[derive(Debug)]
pub struct CategoryTree {
    pub id: i32,
    pub name: String,
    pub has_children: bool,
    pub url: Option<String>,
    pub title: Option<String>,
    pub meta_tag_description: Option<String>,
    pub children: Option<Vec<CategoryTree>>,
}

impl CategoryTree {
    pub fn new(
        id: i32,
        name: String,
        has_children: bool,
        url: Option<String>,
        title: Option<String>,
        meta_tag_description: Option<String>,
        children: Option<Vec<CategoryTree>>,
    ) -> (t: CategoryTree)
        ensures
            t == (CategoryTree { id, name, has_children, url, title, meta_tag_description, children }),
    {
        CategoryTree { id, name, has_children, url, title, meta_tag_description, children }
    }
}

/// A brand as submitted to the remote service.
#[derive(Debug, PartialEq, Clone)]
pub struct Brand {
    pub id: Option<i32>,
    pub name: String,
    pub text: Option<String>,
    pub keywords: Option<String>,
    pub site_title: Option<String>,
    pub active: bool,
    pub menu_home: Option<String>,
    pub ad_words_remarketing_code: Option<String>,
    pub lomadee_campaign_code: Option<String>,
    pub score: Option<i32>,
}

impl Brand {
    pub fn new(
        id: Option<i32>,
        name: String,
        text: Option<String>,
        keywords: Option<String>,
        site_title: Option<String>,
        active: bool,
        menu_home: Option<String>,
        ad_words_remarketing_code: Option<String>,
        lomadee_campaign_code: Option<String>,
        score: Option<i32>,
    ) -> (b: Brand)
        ensures
            b == (Brand {
                id,
                name,
                text,
                keywords,
                site_title,
                active,
                menu_home,
                ad_words_remarketing_code,
                lomadee_campaign_code,
                score,
            }),
    {
        Brand {
            id,
            name,
            text,
            keywords,
            site_title,
            active,
            menu_home,
            ad_words_remarketing_code,
            lomadee_campaign_code,
            score,
        }
    }

    /// Builds a brand that has no remote id assigned yet.
    pub fn build_category(
        name: String,
        text: Option<String>,
        keywords: Option<String>,
        site_title: Option<String>,
        active: bool,
        menu_home: Option<String>,
        ad_words_remarketing_code: Option<String>,
        lomadee_campaign_code: Option<String>,
        score: Option<i32>,
    ) -> (b: Brand)
        ensures
            b == (Brand {
                id: None,
                name,
                text,
                keywords,
                site_title,
                active,
                menu_home,
                ad_words_remarketing_code,
                lomadee_campaign_code,
                score,
            }),
    {
        Brand {
            id: None,
            name,
            text,
            keywords,
            site_title,
            active,
            menu_home,
            ad_words_remarketing_code,
            lomadee_campaign_code,
            score,
        }
    }
}

/// One row of the remote brand list.
#[derive(Debug, PartialEq, Clone)]
pub struct BrandList {
    pub id: i32,
    pub name: String,
    pub is_active: bool,
    pub title: Option<String>,
    pub meta_tag_description: Option<String>,
    pub image_url: Option<String>,
}

/// A specification group as submitted to the remote service.
#[derive(Debug, PartialEq, Clone)]
pub struct Group {
    pub id: Option<i32>,
    pub name: String,
    pub category_id: Option<i32>,
    pub position: Option<i32>,
}

impl Group {
    pub fn new(id: Option<i32>, name: String, category_id: Option<i32>, position: Option<i32>) -> (g: Group)
        ensures
            g == (Group { id, name, category_id, position }),
    {
        Group { id, name, category_id, position }
    }
}

/// A specification group as read back from the remote service.
#[derive(Debug, PartialEq, Clone)]
pub struct SpecificationGroup {
    pub id: Option<i32>,
    pub name: String,
    pub category_id: Option<i32>,
    pub position: Option<i32>,
}

impl SpecificationGroup {
    pub fn new(
        id: Option<i32>,
        name: String,
        category_id: Option<i32>,
        position: Option<i32>,
    ) -> (g: SpecificationGroup)
        ensures
            g == (SpecificationGroup { id, name, category_id, position }),
    {
        SpecificationGroup { id, name, category_id, position }
    }
}

/// One row of the remote list of specification fields for a category.
#[derive(Debug, PartialEq, Clone)]
pub struct SpecificationList {
    pub name: String,
    pub category_id: Option<i32>,
    pub field_id: i32,
    pub is_active: bool,
    pub is_stock_keeping_unit: bool,
}

/// A specification field as submitted to the remote service.
#[derive(Debug, PartialEq, Clone)]
pub struct Specification {
    pub id: Option<i32>,
    pub field_type_id: i32,
    pub category_id: Option<i32>,
    pub field_group_id: i32,
    pub name: String,
    pub description: Option<String>,
    pub position: Option<i32>,
    pub is_filter: Option<bool>,
    pub is_required: Option<bool>,
    pub is_on_product_details: Option<bool>,
    pub is_stock_keeping_unit: Option<bool>,
    pub is_wizard: Option<bool>,
    pub is_active: Option<bool>,
    pub is_top_menu_link_active: Option<bool>,
    pub default_value: Option<String>,
}

impl Specification {
    pub fn new(
        id: Option<i32>,
        field_type_id: i32,
        category_id: Option<i32>,
        field_group_id: i32,
        name: String,
        description: Option<String>,
        position: Option<i32>,
        is_filter: Option<bool>,
        is_required: Option<bool>,
        is_on_product_details: Option<bool>,
        is_stock_keeping_unit: Option<bool>,
        is_wizard: Option<bool>,
        is_active: Option<bool>,
        is_top_menu_link_active: Option<bool>,
        default_value: Option<String>,
    ) -> (s: Specification)
        ensures
            s == (Specification {
                id,
                field_type_id,
                category_id,
                field_group_id,
                name,
                description,
                position,
                is_filter,
                is_required,
                is_on_product_details,
                is_stock_keeping_unit,
                is_wizard,
                is_active,
                is_top_menu_link_active,
                default_value,
            }),
    {
        Specification {
            id,
            field_type_id,
            category_id,
            field_group_id,
            name,
            description,
            position,
            is_filter,
            is_required,
            is_on_product_details,
            is_stock_keeping_unit,
            is_wizard,
            is_active,
            is_top_menu_link_active,
            default_value,
        }
    }
}

/// A value of a specification field as submitted to the remote service.
#[derive(Debug, PartialEq, Eq, Hash, Clone)]
pub struct SpecificationValue {
    pub field_value_id: Option<i32>,
    pub field_id: i32,
    pub name: String,
    pub text: Option<String>,
    pub is_active: Option<bool>,
    pub position: Option<i32>,
}

impl SpecificationValue {
    pub fn new(
        field_value_id: Option<i32>,
        field_id: i32,
        name: String,
        text: Option<String>,
        is_active: Option<bool>,
        position: Option<i32>,
    ) -> (v: SpecificationValue)
        ensures
            v == (SpecificationValue { field_value_id, field_id, name, text, is_active, position }),
    {
        SpecificationValue { field_value_id, field_id, name, text, is_active, position }
    }
}

/// One row of the remote list of values for a specification field.
#[derive(Debug, PartialEq, Eq, Hash, Clone)]
pub struct FieldValueList {
    pub field_value_id: i32,
    pub value: String,
    pub is_active: bool,
    pub position: i32,
}

/// A product row: its foreign keys may still be names rather than remote ids.
#[derive(Debug, PartialEq, Eq, Hash, Clone)]
pub struct Product {
    pub id: Option<i32>,
    pub name: String,
    pub department_id: Option<i32>,
    pub category_id: Option<i32>,
    pub category_unique_identifier: Option<String>,
    pub brand_id: Option<i32>,
    pub brand_name: Option<String>,
    pub link_id: Option<String>,
    pub ref_id: Option<String>,
    pub is_visible: Option<bool>,
    pub description: Option<String>,
    pub description_short: Option<String>,
    pub release_date: Option<String>,
    pub key_words: Option<String>,
    pub title: Option<String>,
    pub is_active: Option<bool>,
    pub tax_code: Option<String>,
    pub meta_tag_description: Option<String>,
    pub supplier_id: Option<i32>,
    pub show_without_stock: Option<bool>,
    pub ad_words_remarketing_code: Option<String>,
    pub lomadee_campaign_code: Option<String>,
    pub score: Option<i32>,
}

/// A specification value attached to a product.
#[derive(Debug, PartialEq, Clone)]
pub struct ProductSpecification {
    pub id: Option<i32>,
    pub product_id: i32,
    pub field_id: i32,
    pub field_value_id: Option<i32>,
    pub text: Option<String>,
}

/// A specification value attached to a stock keeping unit.
#[derive(Debug, PartialEq, Clone)]
pub struct SkuSpecAssignment {
    pub id: Option<i32>,
    pub sku_id: i32,
    pub field_id: i32,
    pub field_value_id: Option<i32>,
    pub text: Option<String>,
}

/// A product/specification association as submitted to the remote service.
#[derive(Debug, PartialEq, Clone)]
pub struct ProductSpecificationAssocation {
    pub id: Option<i32>,
    pub product_id: i32,
    pub field_id: i32,
    pub field_value_id: Option<i32>,
    pub text: Option<String>,
}

/// A stock-keeping-unit/specification association.
#[derive(Debug, PartialEq, Clone)]
pub struct SkuSpecificationAssociation {
    pub id: Option<i32>,
    pub sku_id: i32,
    pub field_id: i32,
    pub field_value_id: Option<i32>,
    pub text: Option<String>,
}

/// One image file attached to a stock keeping unit.
#[derive(Debug, PartialEq, Clone)]
pub struct SkuFile {
    pub id: Option<i32>,
    pub sku_id: i32,
    pub archive_id: Option<i32>,
    pub name: Option<String>,
    pub is_main: Option<bool>,
    pub label: Option<String>,
    pub url: Option<String>,
}

/// The EAN code of a stock keeping unit.
#[derive(Debug, PartialEq, Clone)]
pub struct SkuEan {
    pub sku_id: i32,
    pub ean: String,
}

/// A similar-category association of a product.
#[derive(Debug, PartialEq, Clone)]
pub struct SimilarCategory {
    pub product_id: i32,
    pub category_id: i32,
}

/// One inventory row for a stock keeping unit in a warehouse.
#[derive(Debug, PartialEq, Clone)]
pub struct Inventory {
    pub warehouse_id: String,
    pub sku_id: Option<i32>,
    pub ref_id: String,
    pub unlimited_quantity: bool,
    pub date_utc_on_balance_system: Option<String>,
    pub quantity: i32,
}

/// The remote inventory record of one stock keeping unit.
#[derive(Debug, PartialEq, Clone)]
pub struct InventoryList {
    pub sku_id: String,
    pub balance: Vec<Balance>,
}

/// The stock balance of one warehouse.
#[derive(Debug, PartialEq, Clone)]
pub struct Balance {
    pub warehouse_id: String,
    pub warehouse_name: String,
    pub total_quantity: i32,
    pub reserved_quantity: i32,
    pub has_unlimited_quantity: bool,
    pub time_to_refill: Option<String>,
    pub date_of_supply_utc: Option<String>,
}

/// One image of a stock keeping unit as read from the remote service.
#[derive(Debug, PartialEq, Clone)]
pub struct Image {
    pub image_url: String,
    pub image_name: String,
    pub file_id: i32,
}

/// A specification of a stock keeping unit as read from the remote service.
#[derive(Debug, PartialEq, Clone)]
pub struct SkuSpecification {
    pub field_id: i32,
    pub field_name: String,
    pub field_value_ids: Vec<i32>,
    pub field_values: Vec<String>,
    pub is_filter: bool,
    pub field_group_id: i32,
    pub field_group_name: String,
}

/// The category names of a product, one per tree level.
#[derive(Debug, PartialEq, Clone)]
pub struct ProductCategories {
    pub three: String,
    pub two: String,
    pub one: String,
}

/// The alternate identifiers of a stock keeping unit.
#[derive(Debug, PartialEq, Clone)]
pub struct AlternateIds {
    pub ref_id: String,
}

/// A specification value assignment keyed by product reference id.
#[derive(Debug, PartialEq, Clone)]
pub struct ProductSpecificationAssignment {
    pub product_ref_id: String,
    pub name: String,
    pub description: String,
    pub value: String,
    pub position: i32,
    pub is_filter: bool,
    pub is_required: bool,
    pub is_on_product_details: bool,
    pub is_stock_keeping_unit: bool,
    pub is_wizard: bool,
    pub is_active: bool,
    pub is_top_menu_link_active: bool,
    pub default_value: Option<String>,
}

/// A specification value assignment keyed by stock-keeping-unit reference id.
#[derive(Debug, PartialEq, Clone)]
pub struct SkuSpecificationValueAssignment {
    pub sku_ref_id: String,
    pub name: String,
    pub value: String,
}

/// The three category levels of an indexed item, each prefixed by its parents.
#[derive(Debug, PartialEq, Clone)]
pub struct HierarchicalCategories {
    pub lvl0: String,
    pub lvl1: String,
    pub lvl2: String,
}

/// A colour facet of an indexed item.
#[derive(Debug, PartialEq, Clone)]
pub struct Color {
    pub filter_group: String,
    pub original_name: String,
}

/// One sellable variant of an indexed item.
#[derive(Debug, PartialEq, Clone)]
pub struct Variant {
    pub sku_ref: String,
    pub abbreviated_size: Option<String>,
    pub abbreviated_color: Option<String>,
    pub in_stock: bool,
}

/// One row of a derived lookup artifact mapping a part number to the remote
/// product id it was created under.
#[derive(Debug, PartialEq, Clone)]
pub struct ProductLookup {
    pub part_number: String,
    pub product_id: i32,
}

/// One row of a derived lookup artifact mapping a part number to the remote
/// stock-keeping-unit id it was created under.
#[derive(Debug, PartialEq, Clone)]
pub struct SkuLookup {
    pub part_number: String,
    pub sku_id: i32,
}

/// One category row of the tabular input.
#[derive(Debug, PartialEq, Clone)]
pub struct CatRecord {
    pub group_identifier: String,
    pub parent_group_identifier: String,
    pub top_group: bool,
    pub sequence: i32,
    pub name: String,
    pub short_description: String,
    pub long_description: String,
    pub thumbnail: String,
    pub full_image: String,
    pub field1: String,
    pub published: i32,
    pub delete: i32,
}

/// One descriptive-attribute row of the tabular input.
#[derive(Debug, PartialEq, Clone)]
pub struct ProdDescAttrRecord {
    pub part_number: String,
    pub usage: i32,
    pub name: String,
    pub value: String,
    pub sequence: i32,
    pub delete: i32,
    pub group_name: String,
}

/// One defining-attribute row of the tabular input.
#[derive(Debug, PartialEq, Clone)]
pub struct SkuDefineAttrValueRecord {
    pub part_number: String,
    pub name: String,
    pub value: String,
    pub delete: i32,
}

/// One inventory row of the tabular input.
#[derive(Debug, PartialEq, Clone)]
pub struct InventoryRecord {
    pub part_number: String,
    pub quantity: i32,
    pub backorderable: i32,
}

/// One row of the derived list of inactive stock keeping units.
#[derive(Debug, PartialEq, Clone)]
pub struct SkusInactive {
    pub sku_id: i32,
}

/// A product specification row keyed by the numeric product reference.
#[derive(Debug, PartialEq, Clone)]
pub struct ProductSpecificationAssignmentAlternate {
    pub product_ref_id: i32,
    pub short_desc: Option<String>,
    pub ship_message: Option<String>,
    pub availability_remarks: Option<String>,
    pub weight: Option<String>,
    pub package_dimensions: Option<String>,
    pub shipping_remarks: Option<String>,
    pub prop_65: Option<String>,
    pub attachment: Option<String>,
}

} // verus!
