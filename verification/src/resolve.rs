//! Dependency resolution: turning the name-based foreign keys of an input
//! record into remote numeric ids, using the lookup tables built at the
//! start of the run, or marking the record skipped with a reason.
//!
//! A record either resolves fully or becomes skipped; no partially resolved
//! record is handed on. One bad record never stops the rest of the batch.

use vstd::hash_set::StringHashSet;
use vstd::prelude::*;
use vstd::string::*;

use crate::lookup::{LookupTable, NameTable};
use crate::model::Product;

verus! {

/// Why a record was withheld from submission.
#[derive(Debug, PartialEq, Clone)]
pub enum SkipReason {
    /// The record carries no brand name.
    MissingBrandName,
    /// The brand name is absent from the brand lookup table.
    BrandNotFound { name: String },
    /// The record carries no category unique identifier.
    MissingCategoryIdentifier,
    /// The category unique identifier is absent from the identifier-to-name
    /// table.
    CategoryNameNotFound { identifier: String },
    /// The category name is absent from the flattened category tree table.
    CategoryIdNotFound { name: String },
    /// No product with this reference id is known, locally or remotely.
    ProductRefNotFound { product_ref_id: String },
}

impl SkipReason {
    /// A human-readable reason, carrying the key that failed to resolve.
    pub fn message(&self) -> (m: String)
        ensures
            match self {
                SkipReason::MissingBrandName => m@ == "brand name missing"@,
                SkipReason::BrandNotFound { name } => m@ == "brand not found: "@ + name@,
                SkipReason::MissingCategoryIdentifier => m@
                    == "category unique identifier missing"@,
                SkipReason::CategoryNameNotFound { identifier } => m@
                    == "category name not found: "@ + identifier@,
                SkipReason::CategoryIdNotFound { name } => m@ == "category id not found: "@
                    + name@,
                SkipReason::ProductRefNotFound { product_ref_id } => m@
                    == "product not found for ref id: "@ + product_ref_id@,
            },
    {
        match self {
            SkipReason::MissingBrandName => String::from_str("brand name missing"),
            SkipReason::BrandNotFound { name } => String::from_str("brand not found: ").concat(
                name.as_str(),
            ),
            SkipReason::MissingCategoryIdentifier => String::from_str(
                "category unique identifier missing",
            ),
            SkipReason::CategoryNameNotFound { identifier } => String::from_str(
                "category name not found: ",
            ).concat(identifier.as_str()),
            SkipReason::CategoryIdNotFound { name } => String::from_str(
                "category id not found: ",
            ).concat(name.as_str()),
            SkipReason::ProductRefNotFound { product_ref_id } => String::from_str(
                "product not found for ref id: ",
            ).concat(product_ref_id.as_str()),
        }
    }
}

/// Resolves a product row's category and brand foreign keys against the
/// lookup tables.
///
/// The category is resolved first: its unique identifier names the category,
/// and the category name gives the remote id from the flattened tree. When
/// `skip_category_lookup` is set the category id is left as it came in.
/// Then the brand name gives the brand id. The first missing dependency
/// turns the whole record into a skip; on success both ids are filled in
/// and every other field is untouched.
pub fn resolve_product(
    record: Product,
    category_names: &NameTable,
    category_ids: &LookupTable,
    brands: &LookupTable,
    skip_category_lookup: bool,
) -> (r: Result<Product, SkipReason>)
    ensures
        ({
            if !skip_category_lookup && record.category_unique_identifier is None {
                r == Err::<Product, SkipReason>(SkipReason::MissingCategoryIdentifier)
            } else if !skip_category_lookup && !category_names@.contains_key(
                record.category_unique_identifier->0@,
            ) {
                r matches Err(SkipReason::CategoryNameNotFound { identifier }) && identifier@
                    == record.category_unique_identifier->0@
            } else if !skip_category_lookup && !category_ids@.contains_key(
                category_names@[record.category_unique_identifier->0@],
            ) {
                r matches Err(SkipReason::CategoryIdNotFound { name }) && name@
                    == category_names@[record.category_unique_identifier->0@]
            } else if record.brand_name is None {
                r == Err::<Product, SkipReason>(SkipReason::MissingBrandName)
            } else if !brands@.contains_key(record.brand_name->0@) {
                r matches Err(SkipReason::BrandNotFound { name }) && name@
                    == record.brand_name->0@
            } else {
                r matches Ok(p) && p == (Product {
                    category_id: if skip_category_lookup {
                        record.category_id
                    } else {
                        Some(category_ids@[category_names@[record.category_unique_identifier->0@]])
                    },
                    brand_id: Some(brands@[record.brand_name->0@]),
                    ..record
                })
            }
        }),
{
    let mut resolved = record;
    if !skip_category_lookup {
        let identifier = match &resolved.category_unique_identifier {
            Some(identifier) => identifier.clone(),
            None => {
                return Err(SkipReason::MissingCategoryIdentifier);
            },
        };
        let category_name = match category_names.get(identifier.as_str()) {
            Some(name) => name,
            None => {
                return Err(SkipReason::CategoryNameNotFound { identifier });
            },
        };
        let category_id = match category_ids.get(category_name.as_str()) {
            Some(id) => id,
            None => {
                return Err(SkipReason::CategoryIdNotFound { name: category_name });
            },
        };
        resolved.category_id = Some(category_id);
    }
    let brand_name = match &resolved.brand_name {
        Some(name) => name.clone(),
        None => {
            return Err(SkipReason::MissingBrandName);
        },
    };
    let brand_id = match brands.get(brand_name.as_str()) {
        Some(id) => id,
        None => {
            return Err(SkipReason::BrandNotFound { name: brand_name });
        },
    };
    resolved.brand_id = Some(brand_id);
    Ok(resolved)
}

/// The foreign-key fields of one stock-keeping-unit row: the row's own
/// reference id, the reference id of the product it belongs to, and the
/// remote product id when it is already known.
#[derive(Debug, PartialEq)]
pub struct SkuDependency {
    pub sku_ref_id: String,
    pub product_ref_id: String,
    pub product_id: Option<i32>,
}

/// The mathematical value of a stock-keeping-unit dependency row.
pub struct SkuDependencyView {
    pub sku_ref_id: Seq<char>,
    pub product_ref_id: Seq<char>,
    pub product_id: Option<i32>,
}

impl View for SkuDependency {
    type V = SkuDependencyView;

    open spec fn view(&self) -> SkuDependencyView {
        SkuDependencyView {
            sku_ref_id: self.sku_ref_id@,
            product_ref_id: self.product_ref_id@,
            product_id: self.product_id,
        }
    }
}

/// The reference ids of rows that still lack a product id: these are the
/// rows for which a lookup, local or remote, is needed at all.
pub open spec fn pending_refs(records: Seq<SkuDependency>) -> Set<Seq<char>> {
    Set::new(
        |k: Seq<char>|
            exists|j: int|
                #![trigger records[j]]
                0 <= j < records.len() && records[j].product_id is None
                    && records[j].product_ref_id@ == k,
    )
}

/// The set of string views held by a list of strings.
pub open spec fn listed_refs(refs: Seq<String>) -> Set<Seq<char>> {
    Set::new(
        |k: Seq<char>|
            exists|a: int| #![trigger refs[a]] 0 <= a < refs.len() && refs[a]@ == k,
    )
}

/// The distinct product reference ids that still need a remote lookup:
/// those of rows without a product id whose reference id the memo cache
/// does not hold yet.
///
/// This is where the memoization law lives: the returned list holds no
/// duplicate and nothing the cache already knows, and lists exactly the
/// pending reference ids outside the cache, so a run that performs one
/// remote lookup per returned entry performs at most one lookup per
/// distinct reference id, and none for a reference id the cache holds.
pub fn product_refs_to_fetch(records: &Vec<SkuDependency>, cache: &LookupTable) -> (refs: Vec<
    String,
>)
    ensures
        forall|a: int, b: int|
            0 <= a < b < refs@.len() ==> (#[trigger] refs@[a])@ != (#[trigger] refs@[b])@,
        forall|a: int| 0 <= a < refs@.len() ==> !cache@.contains_key((#[trigger] refs@[a])@),
        forall|a: int|
            0 <= a < refs@.len() ==> pending_refs(records@).contains((#[trigger] refs@[a])@),
        forall|j: int|
            0 <= j < records@.len() && (#[trigger] records@[j]).product_id is None
                && !cache@.contains_key(records@[j].product_ref_id@) ==> listed_refs(
                refs@,
            ).contains(records@[j].product_ref_id@),
{
    let mut refs: Vec<String> = Vec::new();
    let mut seen = StringHashSet::new();
    let ghost mut position: Map<Seq<char>, int> = Map::empty();
    let n = records.len();
    for i in 0..n
        invariant
            n == records@.len(),
            forall|a: int, b: int|
                0 <= a < b < refs@.len() ==> (#[trigger] refs@[a])@ != (#[trigger] refs@[b])@,
            forall|a: int| 0 <= a < refs@.len() ==> !cache@.contains_key((#[trigger] refs@[a])@),
            forall|a: int| 0 <= a < refs@.len() ==> seen@.contains((#[trigger] refs@[a])@),
            forall|a: int|
                0 <= a < refs@.len() ==> pending_refs(records@).contains((#[trigger] refs@[a])@),
            forall|k: Seq<char>|
                #[trigger] seen@.contains(k) ==> 0 <= position[k] < refs@.len()
                    && refs@[position[k]]@ == k,
            forall|j: int|
                0 <= j < i && (#[trigger] records@[j]).product_id is None
                    && !cache@.contains_key(records@[j].product_ref_id@) ==> seen@.contains(
                    records@[j].product_ref_id@,
                ),
    {
        if records[i].product_id.is_none() {
            let ref_id = &records[i].product_ref_id;
            if !cache.contains_key(ref_id.as_str()) && !seen.contains(ref_id.as_str()) {
                let ghost m = refs@.len() as int;
                seen.insert(ref_id.clone());
                refs.push(ref_id.clone());
                proof {
                    position = position.insert(records@[i as int].product_ref_id@, m);
                    assert(refs@[m]@ == records@[i as int].product_ref_id@);
                    assert(pending_refs(records@).contains(refs@[m]@));
                }
            }
        }
    }
    proof {
        assert forall|j: int|
            0 <= j < records@.len() && (#[trigger] records@[j]).product_id is None
                && !cache@.contains_key(records@[j].product_ref_id@) implies listed_refs(
            refs@,
        ).contains(records@[j].product_ref_id@) by {
            let k = records@[j].product_ref_id@;
            assert(seen@.contains(k));
            assert(0 <= position[k] < refs@.len() && refs@[position[k]]@ == k);
        }
    }
    refs
}

/// The outcome of resolving one stock-keeping-unit row against the memo
/// cache after all needed remote lookups were recorded in it: either the
/// row with its product id filled in, or the row itself as skipped.
pub open spec fn sku_resolution(r: SkuDependencyView, cache: Map<Seq<char>, i32>) -> Result<
    SkuDependencyView,
    SkuDependencyView,
> {
    if r.product_id is Some {
        Ok(r)
    } else if cache.contains_key(r.product_ref_id) {
        Ok(SkuDependencyView { product_id: Some(cache[r.product_ref_id]), ..r })
    } else {
        Err(r)
    }
}

/// The rows that resolve successfully against the cache, already filled in.
pub open spec fn resolved_views(records: Seq<SkuDependency>, cache: Map<Seq<char>, i32>) -> Set<
    SkuDependencyView,
> {
    Set::new(
        |p: SkuDependencyView|
            exists|j: int|
                #![trigger records[j]]
                0 <= j < records.len() && sku_resolution(records[j]@, cache) == Ok::<
                    SkuDependencyView,
                    SkuDependencyView,
                >(p),
    )
}

/// The set of row views held by a list of rows.
pub open spec fn listed_views(rows: Seq<SkuDependency>) -> Set<SkuDependencyView> {
    Set::new(
        |p: SkuDependencyView|
            exists|a: int| #![trigger rows[a]] 0 <= a < rows.len() && rows[a]@ == p,
    )
}

/// The set of row views held by a skip list.
pub open spec fn skipped_views(rows: Seq<(SkuDependency, SkipReason)>) -> Set<
    SkuDependencyView,
> {
    Set::new(
        |p: SkuDependencyView|
            exists|a: int| #![trigger rows[a]] 0 <= a < rows.len() && rows[a].0@ == p,
    )
}

/// Fills in the product id of every row the memo cache can resolve; a row
/// whose product reference id is known neither locally nor in the cache
/// comes back in the skip list with a reason naming that reference id. No
/// row is lost: every row lands, in input order, in exactly one of the two
/// outputs.
#[verifier::rlimit(100)]
pub fn apply_product_ids(records: &Vec<SkuDependency>, cache: &LookupTable) -> (out: (
    Vec<SkuDependency>,
    Vec<(SkuDependency, SkipReason)>,
))
    ensures
        out.0@.len() + out.1@.len() == records@.len(),
        forall|a: int|
            0 <= a < out.0@.len() ==> resolved_views(records@, cache@).contains(
                (#[trigger] out.0@[a])@,
            ),
        forall|a: int|
            0 <= a < out.1@.len() ==> sku_resolution((#[trigger] out.1@[a]).0@, cache@)
                == Err::<SkuDependencyView, SkuDependencyView>(out.1@[a].0@) && listed_views(
                records@,
            ).contains(out.1@[a].0@) && (out.1@[a].1 matches SkipReason::ProductRefNotFound {
                product_ref_id,
            } && product_ref_id@ == out.1@[a].0@.product_ref_id),
        forall|j: int|
            0 <= j < records@.len() ==> (match sku_resolution(#[trigger] records@[j]@, cache@) {
                Ok(p) => listed_views(out.0@).contains(p),
                Err(s) => skipped_views(out.1@).contains(s),
            }),
{
    let mut resolved: Vec<SkuDependency> = Vec::new();
    let mut skipped: Vec<(SkuDependency, SkipReason)> = Vec::new();
    let ghost mut landing: Seq<int> = Seq::empty();
    let n = records.len();
    for i in 0..n
        invariant
            n == records@.len(),
            resolved@.len() + skipped@.len() == i,
            landing.len() == i,
            forall|a: int|
                0 <= a < resolved@.len() ==> resolved_views(records@, cache@).contains(
                    (#[trigger] resolved@[a])@,
                ),
            forall|a: int|
                0 <= a < skipped@.len() ==> sku_resolution((#[trigger] skipped@[a]).0@, cache@)
                    == Err::<SkuDependencyView, SkuDependencyView>(skipped@[a].0@)
                    && listed_views(records@).contains(skipped@[a].0@) && (skipped@[a].1 matches SkipReason::ProductRefNotFound {
                    product_ref_id,
                } && product_ref_id@ == skipped@[a].0@.product_ref_id),
            forall|j: int|
                0 <= j < i ==> (match sku_resolution(#[trigger] records@[j]@, cache@) {
                    Ok(p) => 0 <= landing[j] < resolved@.len() && resolved@[landing[j]]@ == p,
                    Err(s) => 0 <= landing[j] < skipped@.len() && skipped@[landing[j]].0@ == s,
                }),
    {
        let copied = SkuDependency {
            sku_ref_id: records[i].sku_ref_id.clone(),
            product_ref_id: records[i].product_ref_id.clone(),
            product_id: records[i].product_id,
        };
        proof {
            assert(copied@ == records@[i as int]@);
        }
        if copied.product_id.is_some() {
            let ghost m = resolved@.len() as int;
            proof {
                landing = landing.push(m);
            }
            resolved.push(copied);
            proof {
                assert(sku_resolution(records@[i as int]@, cache@) == Ok::<
                    SkuDependencyView,
                    SkuDependencyView,
                >(resolved@[m]@));
                assert(resolved_views(records@, cache@).contains(resolved@[m]@));
            }
        } else {
            match cache.get(copied.product_ref_id.as_str()) {
                Some(product_id) => {
                    let filled = SkuDependency {
                        sku_ref_id: copied.sku_ref_id,
                        product_ref_id: copied.product_ref_id,
                        product_id: Some(product_id),
                    };
                    let ghost m = resolved@.len() as int;
                    proof {
                        landing = landing.push(m);
                    }
                    resolved.push(filled);
                    proof {
                        assert(sku_resolution(records@[i as int]@, cache@) == Ok::<
                            SkuDependencyView,
                            SkuDependencyView,
                        >(resolved@[m]@));
                        assert(resolved_views(records@, cache@).contains(resolved@[m]@));
                    }
                },
                None => {
                    let reason = SkipReason::ProductRefNotFound {
                        product_ref_id: copied.product_ref_id.clone(),
                    };
                    let ghost m = skipped@.len() as int;
                    proof {
                        landing = landing.push(m);
                    }
                    skipped.push((copied, reason));
                    proof {
                        assert(skipped@[m].0@ == records@[i as int]@);
                        assert(listed_views(records@).contains(skipped@[m].0@));
                    }
                },
            }
        }
    }
    proof {
        assert forall|j: int|
            0 <= j < records@.len() implies (match sku_resolution(
            #[trigger] records@[j]@,
            cache@,
        ) {
            Ok(p) => listed_views(resolved@).contains(p),
            Err(s) => skipped_views(skipped@).contains(s),
        }) by {
            match sku_resolution(records@[j]@, cache@) {
                Ok(p) => {
                    assert(0 <= landing[j] < resolved@.len() && resolved@[landing[j]]@ == p);
                    assert(listed_views(resolved@).contains(p));
                },
                Err(s) => {
                    assert(0 <= landing[j] < skipped@.len() && skipped@[landing[j]].0@ == s);
                    assert(skipped_views(skipped@).contains(s));
                },
            }
        }
    }
    (resolved, skipped)
}

} // verus!
