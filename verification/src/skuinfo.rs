//! Readers of the remote stock-keeping-unit context: the colour and size
//! facets, the image URLs, and the warehouse quantity used for the search
//! index export.

use vstd::prelude::*;
use vstd::string::*;

use crate::model::{Balance, Image, InventoryList, SkuSpecification};

verus! {

/// The value a forward scan leaves for a field: empty until a specification
/// with the name appears; each matching specification overwrites the value
/// with its first entry.
pub open spec fn last_field_value(specs: Seq<SkuSpecification>, name: Seq<char>) -> Seq<char>
    decreases specs.len(),
{
    if specs.len() == 0 {
        Seq::empty()
    } else if specs.last().field_name@ == name {
        specs.last().field_values[0]@
    } else {
        last_field_value(specs.drop_last(), name)
    }
}

/// Every specification carrying the name has at least one value, so the
/// scan never reads past the end of an empty value list.
pub open spec fn named_specs_have_values(specs: Seq<SkuSpecification>, name: Seq<char>) -> bool {
    forall|i: int|
        0 <= i < specs.len() && (#[trigger] specs[i]).field_name@ == name ==> specs[i].field_values@.len() >= 1
}

fn scan_field(specs: &Vec<SkuSpecification>, name: &String) -> (value: Option<String>)
    requires
        named_specs_have_values(specs@, name@),
    ensures
        ({
            let v = last_field_value(specs@, name@);
            if v.len() > 0 {
                value matches Some(c) && c@ == v
            } else {
                value is None
            }
        }),
{
    let mut current = String::new();
    let n = specs.len();
    for i in 0..n
        invariant
            n == specs@.len(),
            named_specs_have_values(specs@, name@),
            current@ == last_field_value(specs@.take(i as int), name@),
    {
        if specs[i].field_name == *name {
            current = specs[i].field_values[0].clone();
        }
        proof {
            assert(specs@.take(i + 1).drop_last() =~= specs@.take(i as int));
            assert(specs@.take(i + 1).last() == specs@[i as int]);
        }
    }
    proof {
        assert(specs@.take(n as int) =~= specs@);
    }
    if !current.as_str().is_empty() {
        Some(current)
    } else {
        None
    }
}

/// The colour facet of a stock keeping unit: the first value of the last
/// specification named `Color`, or nothing when no such specification left
/// a non-empty value.
pub fn get_color(sku_specs: &Option<Vec<SkuSpecification>>) -> (color: Option<String>)
    requires
        sku_specs is Some,
        named_specs_have_values(sku_specs->0@, "Color"@),
    ensures
        ({
            let v = last_field_value(sku_specs->0@, "Color"@);
            if v.len() > 0 {
                color matches Some(c) && c@ == v
            } else {
                color is None
            }
        }),
{
    let name = String::from_str("Color");
    match sku_specs {
        Some(specs) => scan_field(specs, &name),
        None => None,
    }
}

/// The size facet of a stock keeping unit: the first value of the last
/// specification named `Size`, or nothing when no such specification left a
/// non-empty value.
pub fn get_size(sku_specs: &Option<Vec<SkuSpecification>>) -> (size: Option<String>)
    requires
        sku_specs is Some,
        named_specs_have_values(sku_specs->0@, "Size"@),
    ensures
        ({
            let v = last_field_value(sku_specs->0@, "Size"@);
            if v.len() > 0 {
                size matches Some(c) && c@ == v
            } else {
                size is None
            }
        }),
{
    let name = String::from_str("Size");
    match sku_specs {
        Some(specs) => scan_field(specs, &name),
        None => None,
    }
}

/// The URLs of a stock keeping unit's images, in order.
pub fn get_image_urls(images: &Option<Vec<Image>>) -> (urls: Vec<String>)
    requires
        images is Some,
    ensures
        urls@.len() == images->0@.len(),
        forall|i: int|
            0 <= i < urls@.len() ==> (#[trigger] urls@[i])@ == images->0@[i].image_url@,
{
    let mut urls: Vec<String> = Vec::new();
    match images {
        Some(list) => {
            let n = list.len();
            for i in 0..n
                invariant
                    n == list@.len(),
                    urls@.len() == i,
                    forall|k: int|
                        0 <= k < urls@.len() ==> (#[trigger] urls@[k])@ == list@[k].image_url@,
            {
                urls.push(list[i].image_url.clone());
            }
        },
        None => {},
    }
    urls
}

/// The quantity a forward scan leaves for a warehouse: zero until a balance
/// of that warehouse appears; each matching balance overwrites the value
/// with its total quantity.
pub open spec fn warehouse_quantity(balances: Seq<Balance>, warehouse: Seq<char>) -> int
    decreases balances.len(),
{
    if balances.len() == 0 {
        0
    } else if balances.last().warehouse_id@ == warehouse {
        balances.last().total_quantity as int
    } else {
        warehouse_quantity(balances.drop_last(), warehouse)
    }
}

/// The stock the search index export counts for a stock keeping unit: the
/// quantity of the balance row of the warehouse named `warehouse1`, or zero
/// when that warehouse does not appear.
pub fn get_inventory_for_algolia(vtex_inventory: &InventoryList) -> (quantity: i32)
    ensures
        quantity as int == warehouse_quantity(vtex_inventory.balance@, "warehouse1"@),
{
    let warehouse = String::from_str("warehouse1");
    let mut quantity: i32 = 0;
    let n = vtex_inventory.balance.len();
    for i in 0..n
        invariant
            n == vtex_inventory.balance@.len(),
            quantity as int == warehouse_quantity(
                vtex_inventory.balance@.take(i as int),
                warehouse@,
            ),
            warehouse@ == "warehouse1"@,
    {
        if vtex_inventory.balance[i].warehouse_id == warehouse {
            quantity = vtex_inventory.balance[i].total_quantity;
        }
        proof {
            assert(vtex_inventory.balance@.take(i + 1).drop_last() =~= vtex_inventory.balance@.take(
                i as int,
            ));
            assert(vtex_inventory.balance@.take(i + 1).last() == vtex_inventory.balance@[i as int]);
        }
    }
    proof {
        assert(vtex_inventory.balance@.take(n as int) =~= vtex_inventory.balance@);
    }
    quantity
}

} // verus!
