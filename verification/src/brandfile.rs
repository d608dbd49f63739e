//! Generation of the brand file: the distinct brand names pulled out of the
//! product rows, each turned into one brand record ready to submit.

use vstd::prelude::*;
use vstd::string::*;

use crate::model::{Brand, Product};
use crate::skufile::FirstSeen;

verus! {

/// The brand names the product rows carry.
pub open spec fn product_brand_names(products: Seq<Product>) -> Set<Seq<char>> {
    Set::new(
        |k: Seq<char>|
            exists|i: int|
                #![trigger products[i]]
                0 <= i < products.len() && products[i].brand_name->0@ == k,
    )
}

/// The names of a list of brand rows.
pub open spec fn listed_brand_names(brands: Seq<Brand>) -> Set<Seq<char>> {
    Set::new(
        |k: Seq<char>|
            exists|a: int| #![trigger brands[a]] 0 <= a < brands.len() && brands[a].name@ == k,
    )
}

/// The fixed shape of a generated brand row: active, named after the brand,
/// with the name doubling as text and keywords, the menu-home flag written
/// out, and no remote id yet.
pub open spec fn brand_row_shape(b: Brand) -> bool {
    &&& b.id is None
    &&& b.text matches Some(t) && t@ == b.name@
    &&& b.keywords matches Some(k) && k@ == b.name@
    &&& b.site_title is None
    &&& b.active
    &&& b.menu_home matches Some(m) && m@ == "false"@
    &&& b.ad_words_remarketing_code is None
    &&& b.lomadee_campaign_code is None
    &&& b.score is None
}

/// Builds one brand row per distinct brand name of the product rows, in
/// first-occurrence order: no name appears twice, every row's name comes
/// from a product, and every product's brand name has a row.
pub fn build_brand_rows(products: &Vec<Product>) -> (brands: Vec<Brand>)
    requires
        forall|i: int| 0 <= i < products@.len() ==> (#[trigger] products@[i]).brand_name is Some,
    ensures
        forall|a: int, b: int|
            0 <= a < b < brands@.len() ==> (#[trigger] brands@[a]).name@ != (
            #[trigger] brands@[b]).name@,
        forall|a: int|
            0 <= a < brands@.len() ==> product_brand_names(products@).contains(
                (#[trigger] brands@[a]).name@,
            ),
        forall|i: int|
            0 <= i < products@.len() ==> listed_brand_names(brands@).contains(
                (#[trigger] products@[i]).brand_name->0@,
            ),
        forall|a: int| 0 <= a < brands@.len() ==> brand_row_shape(#[trigger] brands@[a]),
{
    let mut brands: Vec<Brand> = Vec::new();
    let mut seen = FirstSeen::new();
    let ghost mut position: Map<Seq<char>, int> = Map::empty();
    let n = products.len();
    for i in 0..n
        invariant
            n == products@.len(),
            forall|j: int|
                0 <= j < products@.len() ==> (#[trigger] products@[j]).brand_name is Some,
            forall|a: int, b: int|
                0 <= a < b < brands@.len() ==> (#[trigger] brands@[a]).name@ != (
                #[trigger] brands@[b]).name@,
            forall|a: int| 0 <= a < brands@.len() ==> seen@.contains((#[trigger] brands@[a]).name@),
            forall|a: int|
                0 <= a < brands@.len() ==> product_brand_names(products@).contains(
                    (#[trigger] brands@[a]).name@,
                ),
            forall|a: int| 0 <= a < brands@.len() ==> brand_row_shape(#[trigger] brands@[a]),
            forall|k: Seq<char>|
                #[trigger] seen@.contains(k) ==> 0 <= position[k] < brands@.len()
                    && brands@[position[k]].name@ == k,
            forall|j: int|
                0 <= j < i ==> seen@.contains((#[trigger] products@[j]).brand_name->0@),
    {
        let name = products[i].brand_name.as_ref().unwrap().clone();
        if seen.check_and_record(name.as_str()) {
            let ghost m = brands@.len() as int;
            let row = Brand {
                id: None,
                name: name.clone(),
                text: Some(name.clone()),
                keywords: Some(name.clone()),
                site_title: None,
                active: true,
                menu_home: Some(String::from_str("false")),
                ad_words_remarketing_code: None,
                lomadee_campaign_code: None,
                score: None,
            };
            brands.push(row);
            proof {
                position = position.insert(products@[i as int].brand_name->0@, m);
                assert(brands@[m].name@ == products@[i as int].brand_name->0@);
                assert(product_brand_names(products@).contains(brands@[m].name@));
                assert(brand_row_shape(brands@[m]));
            }
        }
    }
    proof {
        assert forall|j: int|
            0 <= j < products@.len() implies listed_brand_names(brands@).contains(
            (#[trigger] products@[j]).brand_name->0@,
        ) by {
            let k = products@[j].brand_name->0@;
            assert(seen@.contains(k));
            assert(0 <= position[k] < brands@.len() && brands@[position[k]].name@ == k);
        }
    }
    brands
}

} // verus!
