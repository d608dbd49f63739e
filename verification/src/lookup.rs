//! Lookup tables: flat `name -> id` maps built once per run from remote
//! reference lists, the flattened category tree, and derived lookup
//! artifacts of earlier stages.
//!
//! A table's view is the mathematical map it holds; every builder states the
//! exact map it produces as a fold over its input rows, so insertion order
//! (last write wins on duplicate keys) is part of the contract.

use vstd::hash_map::StringHashMap;
use vstd::prelude::*;
use vstd::string::*;

use crate::model::{BrandList, CatRecord, CategoryTree, FieldValueList, Product, ProductLookup,
    SkuLookup, SpecificationGroup, SpecificationList};
use crate::numtext::{i32_to_string, spec_decimal_signed};
use crate::resolve::SkuDependency;

verus! {

/// An immutable-after-build map from a string key (a name, a unique
/// identifier, or a composite key) to a remote numeric id.
pub struct LookupTable {
    m: StringHashMap<i32>,
}

impl View for LookupTable {
    type V = Map<Seq<char>, i32>;

    closed spec fn view(&self) -> Map<Seq<char>, i32> {
        self.m@
    }
}

impl LookupTable {
    /// Creates an empty table.
    pub fn new() -> (t: Self)
        ensures
            t@ == Map::<Seq<char>, i32>::empty(),
    {
        LookupTable { m: StringHashMap::new() }
    }

    /// Binds `key` to `id`, replacing any earlier binding of `key`.
    pub fn insert(&mut self, key: String, id: i32)
        ensures
            final(self)@ == old(self)@.insert(key@, id),
    {
        self.m.insert(key, id);
    }

    /// Looks the key up; `None` exactly when the key is unbound.
    pub fn get(&self, key: &str) -> (r: Option<i32>)
        ensures
            match r {
                Some(id) => self@.contains_key(key@) && id == self@[key@],
                None => !self@.contains_key(key@),
            },
    {
        match self.m.get(key) {
            Some(id) => Some(*id),
            None => None,
        }
    }

    /// Tells whether the key is bound.
    pub fn contains_key(&self, key: &str) -> (r: bool)
        ensures
            r == self@.contains_key(key@),
    {
        self.m.contains_key(key)
    }

    /// The number of bound keys.
    pub fn len(&self) -> (n: usize)
        ensures
            n == self@.len(),
    {
        self.m.len()
    }
}

/// A map from a string key to a string value, used for unique identifier to
/// category name lookups and reference-id to reference-id joins.
pub struct NameTable {
    m: StringHashMap<String>,
}

impl View for NameTable {
    type V = Map<Seq<char>, Seq<char>>;

    closed spec fn view(&self) -> Map<Seq<char>, Seq<char>> {
        self.m@.map_values(|v: String| v@)
    }
}

impl NameTable {
    /// Creates an empty table.
    pub fn new() -> (t: Self)
        ensures
            t@ == Map::<Seq<char>, Seq<char>>::empty(),
    {
        let t = NameTable { m: StringHashMap::new() };
        proof {
            assert(t@ =~= Map::<Seq<char>, Seq<char>>::empty());
        }
        t
    }

    /// Binds `key` to `value`, replacing any earlier binding of `key`.
    pub fn insert(&mut self, key: String, value: String)
        ensures
            final(self)@ == old(self)@.insert(key@, value@),
    {
        let ghost prior = self.m@;
        self.m.insert(key, value);
        proof {
            assert(self.m@.map_values(|v: String| v@) =~= prior.map_values(
                |v: String| v@,
            ).insert(key@, value@));
        }
    }

    /// Looks the key up; `None` exactly when the key is unbound.
    pub fn get(&self, key: &str) -> (r: Option<String>)
        ensures
            match r {
                Some(v) => self@.contains_key(key@) && v@ == self@[key@],
                None => !self@.contains_key(key@),
            },
    {
        match self.m.get(key) {
            Some(v) => Some(v.clone()),
            None => None,
        }
    }

    /// Tells whether the key is bound.
    pub fn contains_key(&self, key: &str) -> (r: bool)
        ensures
            r == self@.contains_key(key@),
    {
        let r = self.m.contains_key(key);
        proof {
            assert(self@.dom() =~= self.m@.dom());
        }
        r
    }

    /// The number of bound keys.
    pub fn len(&self) -> (n: usize)
        ensures
            n == self@.len(),
    {
        let n = self.m.len();
        proof {
            assert(self@.dom() =~= self.m@.dom());
        }
        n
    }
}

/// The map that inserting `name -> id` for each brand row in order builds.
pub open spec fn brand_table_map(brands: Seq<BrandList>) -> Map<Seq<char>, i32>
    decreases brands.len(),
{
    if brands.len() == 0 {
        Map::empty()
    } else {
        brand_table_map(brands.drop_last()).insert(brands.last().name@, brands.last().id)
    }
}

/// Flattens the brand list into a `name -> id` table; on duplicate names the
/// later row wins.
pub fn parse_brands(brands: Vec<BrandList>) -> (t: LookupTable)
    ensures
        t@ == brand_table_map(brands@),
{
    let mut t = LookupTable::new();
    let n = brands.len();
    for i in 0..n
        invariant
            n == brands@.len(),
            t@ == brand_table_map(brands@.take(i as int)),
    {
        t.insert(brands[i].name.clone(), brands[i].id);
        proof {
            assert(brands@.take(i + 1).drop_last() =~= brands@.take(i as int));
            assert(brands@.take(i + 1).last() == brands@[i as int]);
        }
    }
    proof {
        assert(brands@.take(n as int) =~= brands@);
    }
    t
}

/// The map that inserting `name -> id` for each group row in order builds.
pub open spec fn group_table_map(groups: Seq<SpecificationGroup>) -> Map<Seq<char>, i32>
    decreases groups.len(),
{
    if groups.len() == 0 {
        Map::empty()
    } else {
        group_table_map(groups.drop_last()).insert(
            groups.last().name@,
            groups.last().id->0,
        )
    }
}

/// Flattens the specification group list into a `name -> id` table; on
/// duplicate names the later row wins. Every group must already carry its
/// remote id.
pub fn parse_spec_groups(groups: Vec<SpecificationGroup>) -> (t: LookupTable)
    requires
        forall|i: int| 0 <= i < groups@.len() ==> groups@[i].id is Some,
    ensures
        t@ == group_table_map(groups@),
{
    let mut t = LookupTable::new();
    let n = groups.len();
    for i in 0..n
        invariant
            n == groups@.len(),
            forall|j: int| 0 <= j < groups@.len() ==> groups@[j].id is Some,
            t@ == group_table_map(groups@.take(i as int)),
    {
        let id = groups[i].id.unwrap();
        t.insert(groups[i].name.clone(), id);
        proof {
            assert(groups@.take(i + 1).drop_last() =~= groups@.take(i as int));
            assert(groups@.take(i + 1).last() == groups@[i as int]);
        }
    }
    proof {
        assert(groups@.take(n as int) =~= groups@);
    }
    t
}

/// The map that inserting `part_number -> product_id` for each artifact row
/// in order builds.
pub open spec fn product_lookup_map(rows: Seq<ProductLookup>) -> Map<Seq<char>, i32>
    decreases rows.len(),
{
    if rows.len() == 0 {
        Map::empty()
    } else {
        product_lookup_map(rows.drop_last()).insert(
            rows.last().part_number@,
            rows.last().product_id,
        )
    }
}

/// Rebuilds the `part_number -> product_id` table from the rows of a derived
/// lookup artifact written by an earlier stage.
pub fn create_product_id_lookup(rows: Vec<ProductLookup>) -> (t: LookupTable)
    ensures
        t@ == product_lookup_map(rows@),
{
    let mut t = LookupTable::new();
    let n = rows.len();
    for i in 0..n
        invariant
            n == rows@.len(),
            t@ == product_lookup_map(rows@.take(i as int)),
    {
        t.insert(rows[i].part_number.clone(), rows[i].product_id);
        proof {
            assert(rows@.take(i + 1).drop_last() =~= rows@.take(i as int));
            assert(rows@.take(i + 1).last() == rows@[i as int]);
        }
    }
    proof {
        assert(rows@.take(n as int) =~= rows@);
    }
    t
}

/// The lookup artifact rows for the records a run created: one
/// `part_number -> product_id` row per successful creation, in order, for
/// a later stage to read back.
pub fn product_lookup_rows(created: &Vec<(String, i32)>) -> (rows: Vec<ProductLookup>)
    ensures
        rows@.len() == created@.len(),
        forall|i: int|
            0 <= i < rows@.len() ==> (#[trigger] rows@[i]).part_number@ == created@[i].0@
                && rows@[i].product_id == created@[i].1,
{
    let mut rows: Vec<ProductLookup> = Vec::new();
    let n = created.len();
    for i in 0..n
        invariant
            n == created@.len(),
            rows@.len() == i,
            forall|k: int|
                0 <= k < rows@.len() ==> (#[trigger] rows@[k]).part_number@ == created@[k].0@
                    && rows@[k].product_id == created@[k].1,
    {
        rows.push(ProductLookup { part_number: created[i].0.clone(), product_id: created[i].1 });
    }
    rows
}

/// Law: a `part_number -> product_id` pair written to a derived lookup
/// artifact by one stage resolves, after the artifact is re-read by a later
/// stage's builder, to the same product id, as long as the artifact's part
/// numbers are distinct.
pub proof fn lemma_product_lookup_round_trip(rows: Seq<ProductLookup>, i: int)
    requires
        0 <= i < rows.len(),
        forall|j: int, k: int|
            0 <= j < k < rows.len() ==> rows[j].part_number@ != rows[k].part_number@,
    ensures
        product_lookup_map(rows).contains_key(rows[i].part_number@),
        product_lookup_map(rows)[rows[i].part_number@] == rows[i].product_id,
    decreases rows.len(),
{
    if i < rows.len() - 1 {
        lemma_product_lookup_round_trip(rows.drop_last(), i);
        assert(rows.drop_last()[i] == rows[i]);
        assert(rows.last().part_number@ != rows[i].part_number@);
    }
}

/// The map that inserting `part_number -> sku_id` for each artifact row in
/// order builds.
pub open spec fn sku_lookup_map(rows: Seq<SkuLookup>) -> Map<Seq<char>, i32>
    decreases rows.len(),
{
    if rows.len() == 0 {
        Map::empty()
    } else {
        sku_lookup_map(rows.drop_last()).insert(rows.last().part_number@, rows.last().sku_id)
    }
}

/// Rebuilds the `part_number -> sku_id` table from the rows of a derived
/// lookup artifact written by an earlier stage.
pub fn create_sku_id_lookup(rows: Vec<SkuLookup>) -> (t: LookupTable)
    ensures
        t@ == sku_lookup_map(rows@),
{
    let mut t = LookupTable::new();
    let n = rows.len();
    for i in 0..n
        invariant
            n == rows@.len(),
            t@ == sku_lookup_map(rows@.take(i as int)),
    {
        t.insert(rows[i].part_number.clone(), rows[i].sku_id);
        proof {
            assert(rows@.take(i + 1).drop_last() =~= rows@.take(i as int));
            assert(rows@.take(i + 1).last() == rows@[i as int]);
        }
    }
    proof {
        assert(rows@.take(n as int) =~= rows@);
    }
    t
}

/// The map that inserting `group_identifier -> name` for each category row
/// in order builds.
pub open spec fn category_name_map(rows: Seq<CatRecord>) -> Map<Seq<char>, Seq<char>>
    decreases rows.len(),
{
    if rows.len() == 0 {
        Map::empty()
    } else {
        category_name_map(rows.drop_last()).insert(
            rows.last().group_identifier@,
            rows.last().name@,
        )
    }
}

/// Builds the `group identifier -> category name` table from category input
/// rows; on duplicate identifiers the later row wins.
pub fn create_category_name_lookup(rows: Vec<CatRecord>) -> (t: NameTable)
    ensures
        t@ == category_name_map(rows@),
{
    let mut t = NameTable::new();
    let n = rows.len();
    for i in 0..n
        invariant
            n == rows@.len(),
            t@ == category_name_map(rows@.take(i as int)),
    {
        t.insert(rows[i].group_identifier.clone(), rows[i].name.clone());
        proof {
            assert(rows@.take(i + 1).drop_last() =~= rows@.take(i as int));
            assert(rows@.take(i + 1).last() == rows@[i as int]);
        }
    }
    proof {
        assert(rows@.take(n as int) =~= rows@);
    }
    t
}

/// The flat map contributed by one category tree node: its own `name -> id`
/// binding, overridden by whatever its children, visited afterwards,
/// contribute. Children are descended into only when the node is marked as
/// having children and actually carries them.
pub open spec fn tree_table_map(node: CategoryTree) -> Map<Seq<char>, i32>
    decreases node,
{
    let own = Map::<Seq<char>, i32>::empty().insert(node.name@, node.id);
    if node.has_children && node.children is Some {
        own.union_prefer_right(forest_table_map(node.children->0@))
    } else {
        own
    }
}

/// The flat map contributed by a sequence of category trees, visited depth
/// first in order; later bindings override earlier ones.
pub open spec fn forest_table_map(nodes: Seq<CategoryTree>) -> Map<Seq<char>, i32>
    decreases nodes,
{
    if nodes.len() == 0 {
        Map::empty()
    } else {
        forest_table_map(nodes.drop_last()).union_prefer_right(tree_table_map(nodes.last()))
    }
}

fn insert_tree(t: &mut LookupTable, node: &CategoryTree)
    ensures
        final(t)@ == old(t)@.union_prefer_right(tree_table_map(*node)),
    decreases *node,
{
    t.insert(node.name.clone(), node.id);
    let ghost own_done = t@;
    if node.has_children {
        match &node.children {
            Some(children) => {
                let n = children.len();
                for j in 0..n
                    invariant
                        n == children@.len(),
                        node.children == Some(*children),
                        t@ == own_done.union_prefer_right(
                            forest_table_map(children@.take(j as int)),
                        ),
                {
                    proof {
                        assert(decreases_to!(*node => node.children));
                        assert(decreases_to!(node.children => node.children->0));
                        assert(decreases_to!(node.children->0 => node.children->0@));
                        assert(decreases_to!(node.children->0@ => node.children->0@[j as int]));
                        assert(children@[j as int] == node.children->0@[j as int]);
                    }
                    insert_tree(t, &children[j]);
                    proof {
                        assert(children@.take(j + 1).drop_last() =~= children@.take(j as int));
                        assert(children@.take(j + 1).last() == children@[j as int]);
                        assert(own_done.union_prefer_right(
                            forest_table_map(children@.take(j as int)),
                        ).union_prefer_right(tree_table_map(children@[j as int])) =~= own_done.union_prefer_right(
                            forest_table_map(children@.take(j as int)).union_prefer_right(
                                tree_table_map(children@[j as int]),
                            ),
                        ));
                    }
                }
                proof {
                    assert(children@.take(n as int) =~= children@);
                    assert(own_done.union_prefer_right(forest_table_map(children@))
                        =~= old(t)@.union_prefer_right(tree_table_map(*node)));
                }
            },
            None => {
                proof {
                    assert(t@ =~= old(t)@.union_prefer_right(tree_table_map(*node)));
                }
            },
        }
    } else {
        proof {
            assert(t@ =~= old(t)@.union_prefer_right(tree_table_map(*node)));
        }
    }
}

/// Flattens the remote category tree, of arbitrary depth, into a
/// `name -> id` table: every node inserts its own binding before its
/// children are visited, so on duplicate names the binding of the node
/// visited last wins.
pub fn parse_category_tree(cat_tree: Vec<CategoryTree>) -> (t: LookupTable)
    ensures
        t@ == forest_table_map(cat_tree@),
{
    let mut t = LookupTable::new();
    let n = cat_tree.len();
    for i in 0..n
        invariant
            n == cat_tree@.len(),
            t@ == forest_table_map(cat_tree@.take(i as int)),
    {
        insert_tree(&mut t, &cat_tree[i]);
        proof {
            assert(cat_tree@.take(i + 1).drop_last() =~= cat_tree@.take(i as int));
            assert(cat_tree@.take(i + 1).last() == cat_tree@[i as int]);
        }
    }
    proof {
        assert(cat_tree@.take(n as int) =~= cat_tree@);
    }
    t
}

/// The `(id, name)` pairs of one tree in depth-first order: the node
/// itself, then, when it is marked as carrying children, its subtrees.
pub open spec fn tree_nodes(node: CategoryTree) -> Seq<(i32, Seq<char>)>
    decreases node,
{
    let own = seq![(node.id, node.name@)];
    if node.has_children && node.children is Some {
        own + forest_nodes(node.children->0@)
    } else {
        own
    }
}

/// The `(id, name)` pairs of a sequence of trees in depth-first order.
pub open spec fn forest_nodes(nodes: Seq<CategoryTree>) -> Seq<(i32, Seq<char>)>
    decreases nodes,
{
    if nodes.len() == 0 {
        Seq::empty()
    } else {
        forest_nodes(nodes.drop_last()) + tree_nodes(nodes.last())
    }
}

/// The id and name of each pair, with the name as its character sequence.
pub open spec fn node_views(nodes: Seq<(i32, String)>) -> Seq<(i32, Seq<char>)> {
    nodes.map_values(|p: (i32, String)| (p.0, p.1@))
}

fn push_tree_nodes(nodes: &mut Vec<(i32, String)>, node: &CategoryTree)
    ensures
        node_views(final(nodes)@) == node_views(old(nodes)@) + tree_nodes(*node),
    decreases *node,
{
    nodes.push((node.id, node.name.clone()));
    let ghost own_done = nodes@;
    proof {
        assert(node_views(own_done) =~= node_views(old(nodes)@) + seq![(node.id, node.name@)]);
    }
    if node.has_children {
        match &node.children {
            Some(children) => {
                let n = children.len();
                for j in 0..n
                    invariant
                        n == children@.len(),
                        node.children == Some(*children),
                        node_views(nodes@) == node_views(own_done) + forest_nodes(
                            children@.take(j as int),
                        ),
                {
                    proof {
                        assert(decreases_to!(*node => node.children));
                        assert(decreases_to!(node.children => node.children->0));
                        assert(decreases_to!(node.children->0 => node.children->0@));
                        assert(decreases_to!(node.children->0@ => node.children->0@[j as int]));
                        assert(children@[j as int] == node.children->0@[j as int]);
                    }
                    push_tree_nodes(nodes, &children[j]);
                    proof {
                        assert(children@.take(j + 1).drop_last() =~= children@.take(j as int));
                        assert(children@.take(j + 1).last() == children@[j as int]);
                        assert(node_views(own_done) + forest_nodes(children@.take(j as int))
                            + tree_nodes(children@[j as int]) =~= node_views(own_done)
                            + forest_nodes(children@.take(j + 1)));
                    }
                }
                proof {
                    assert(children@.take(n as int) =~= children@);
                    assert(node_views(own_done) + forest_nodes(children@) =~= node_views(
                        old(nodes)@,
                    ) + tree_nodes(*node));
                }
            },
            None => {
                proof {
                    assert(node_views(nodes@) =~= node_views(old(nodes)@) + tree_nodes(*node));
                }
            },
        }
    } else {
        proof {
            assert(node_views(nodes@) =~= node_views(old(nodes)@) + tree_nodes(*node));
        }
    }
}

/// Lists every node of the category tree, of arbitrary depth, as an
/// `(id, name)` pair in depth-first order: the order in which flattening
/// visits them.
pub fn category_nodes(cat_tree: &Vec<CategoryTree>) -> (nodes: Vec<(i32, String)>)
    ensures
        node_views(nodes@) == forest_nodes(cat_tree@),
{
    let mut nodes: Vec<(i32, String)> = Vec::new();
    let n = cat_tree.len();
    for i in 0..n
        invariant
            n == cat_tree@.len(),
            node_views(nodes@) == forest_nodes(cat_tree@.take(i as int)),
    {
        let ghost prior = nodes@;
        push_tree_nodes(&mut nodes, &cat_tree[i]);
        proof {
            assert(cat_tree@.take(i + 1).drop_last() =~= cat_tree@.take(i as int));
            assert(cat_tree@.take(i + 1).last() == cat_tree@[i as int]);
            assert(node_views(prior) + tree_nodes(cat_tree@[i as int]) =~= forest_nodes(
                cat_tree@.take(i + 1),
            ));
        }
    }
    proof {
        assert(cat_tree@.take(n as int) =~= cat_tree@);
        assert(node_views(nodes@) =~= forest_nodes(cat_tree@));
    }
    nodes
}

/// Whether some node of this tree that the flattening traversal reaches
/// carries the given name.
pub open spec fn tree_has_name(node: CategoryTree, name: Seq<char>) -> bool
    decreases node,
{
    node.name@ == name || (node.has_children && node.children is Some && forest_has_name(
        node.children->0@,
        name,
    ))
}

/// Whether some reachable node of one of these trees carries the given name.
pub open spec fn forest_has_name(nodes: Seq<CategoryTree>, name: Seq<char>) -> bool
    decreases nodes,
{
    nodes.len() > 0 && (forest_has_name(nodes.drop_last(), name) || tree_has_name(
        nodes.last(),
        name,
    ))
}

/// Law: every key of the map contributed by one tree is the name of a node
/// that the traversal reaches from that tree's root, and conversely.
pub proof fn lemma_tree_keys_reachable(node: CategoryTree)
    ensures
        forall|k: Seq<char>|
            tree_table_map(node).dom().contains(k) <==> tree_has_name(node, k),
    decreases node,
{
    let own = Map::<Seq<char>, i32>::empty().insert(node.name@, node.id);
    if node.has_children && node.children is Some {
        lemma_forest_keys_reachable(node.children->0@);
        assert forall|k: Seq<char>|
            tree_table_map(node).dom().contains(k) <==> tree_has_name(node, k) by {
            assert(tree_table_map(node) == own.union_prefer_right(
                forest_table_map(node.children->0@),
            ));
            assert(tree_table_map(node).dom().contains(k) <==> own.dom().contains(k)
                || forest_table_map(node.children->0@).dom().contains(k));
            assert(own.dom().contains(k) <==> k == node.name@);
            assert(tree_has_name(node, k) == (k == node.name@ || forest_has_name(
                node.children->0@,
                k,
            )));
        }
    } else {
        assert forall|k: Seq<char>|
            tree_table_map(node).dom().contains(k) <==> tree_has_name(node, k) by {
            assert(tree_table_map(node) == own);
            assert(own.dom().contains(k) <==> k == node.name@);
        }
    }
}

/// Law: every key that category-tree flattening inserts is the name of a
/// node reachable from one of the roots, and every reachable node's name is
/// a key of the flattened table.
pub proof fn lemma_forest_keys_reachable(nodes: Seq<CategoryTree>)
    ensures
        forall|k: Seq<char>|
            forest_table_map(nodes).dom().contains(k) <==> forest_has_name(nodes, k),
    decreases nodes,
{
    if nodes.len() > 0 {
        lemma_forest_keys_reachable(nodes.drop_last());
        lemma_tree_keys_reachable(nodes.last());
        assert forall|k: Seq<char>|
            forest_table_map(nodes).dom().contains(k) <==> forest_has_name(nodes, k) by {
            assert(forest_table_map(nodes) == forest_table_map(
                nodes.drop_last(),
            ).union_prefer_right(tree_table_map(nodes.last())));
            assert(forest_table_map(nodes).dom().contains(k) <==> forest_table_map(
                nodes.drop_last(),
            ).dom().contains(k) || tree_table_map(nodes.last()).dom().contains(k));
            assert(forest_has_name(nodes, k) == (forest_has_name(nodes.drop_last(), k)
                || tree_has_name(nodes.last(), k)));
        }
    } else {
        assert forall|k: Seq<char>|
            forest_table_map(nodes).dom().contains(k) <==> forest_has_name(nodes, k) by {
            assert(forest_table_map(nodes) == Map::<Seq<char>, i32>::empty());
            assert(!forest_table_map(nodes).dom().contains(k));
        }
    }
}


/// The map that inserting `ref_id -> category_unique_identifier` for each
/// product row in order builds.
pub open spec fn product_parent_map(rows: Seq<Product>) -> Map<Seq<char>, Seq<char>>
    decreases rows.len(),
{
    if rows.len() == 0 {
        Map::empty()
    } else {
        product_parent_map(rows.drop_last()).insert(
            rows.last().ref_id->0@,
            rows.last().category_unique_identifier->0@,
        )
    }
}

/// Builds the `product reference id -> parent category identifier` table
/// from product rows; every row must carry both keys.
pub fn create_product_parent_category_lookup(rows: &Vec<Product>) -> (t: NameTable)
    requires
        forall|i: int|
            0 <= i < rows@.len() ==> (#[trigger] rows@[i]).ref_id is Some
                && rows@[i].category_unique_identifier is Some,
    ensures
        t@ == product_parent_map(rows@),
{
    let mut t = NameTable::new();
    let n = rows.len();
    for i in 0..n
        invariant
            n == rows@.len(),
            forall|j: int|
                0 <= j < rows@.len() ==> (#[trigger] rows@[j]).ref_id is Some
                    && rows@[j].category_unique_identifier is Some,
            t@ == product_parent_map(rows@.take(i as int)),
    {
        let ref_id = rows[i].ref_id.as_ref().unwrap().clone();
        let identifier = rows[i].category_unique_identifier.as_ref().unwrap().clone();
        t.insert(ref_id, identifier);
        proof {
            assert(rows@.take(i + 1).drop_last() =~= rows@.take(i as int));
            assert(rows@.take(i + 1).last() == rows@[i as int]);
        }
    }
    proof {
        assert(rows@.take(n as int) =~= rows@);
    }
    t
}

/// The map that inserting `sku ref_id -> product ref_id` for each row in
/// order builds.
pub open spec fn sku_product_ref_map(rows: Seq<SkuDependency>) -> Map<Seq<char>, Seq<char>>
    decreases rows.len(),
{
    if rows.len() == 0 {
        Map::empty()
    } else {
        sku_product_ref_map(rows.drop_last()).insert(
            rows.last().sku_ref_id@,
            rows.last().product_ref_id@,
        )
    }
}

/// Builds the `sku reference id -> product reference id` table from the
/// dependency fields of the stock-keeping-unit rows.
pub fn create_sku_product_ref_id_lookup(rows: &Vec<SkuDependency>) -> (t: NameTable)
    ensures
        t@ == sku_product_ref_map(rows@),
{
    let mut t = NameTable::new();
    let n = rows.len();
    for i in 0..n
        invariant
            n == rows@.len(),
            t@ == sku_product_ref_map(rows@.take(i as int)),
    {
        t.insert(rows[i].sku_ref_id.clone(), rows[i].product_ref_id.clone());
        proof {
            assert(rows@.take(i + 1).drop_last() =~= rows@.take(i as int));
            assert(rows@.take(i + 1).last() == rows@[i as int]);
        }
    }
    proof {
        assert(rows@.take(n as int) =~= rows@);
    }
    t
}

/// The composite key `"{id}|{name}"` under which a specification field or a
/// field value is stored.
pub open spec fn spec_composite_key(id: int, name: Seq<char>) -> Seq<char> {
    spec_decimal_signed(id) + seq!['|'] + name
}

/// Renders the composite key `"{id}|{name}"`.
pub fn composite_key(id: i32, name: &str) -> (key: String)
    ensures
        key@ == spec_composite_key(id as int, name@),
{
    proof {
        reveal_strlit("|");
    }
    let rendered = i32_to_string(id);
    let with_bar = rendered.concat("|");
    let key = with_bar.concat(name);
    proof {
        assert(key@ =~= spec_composite_key(id as int, name@));
    }
    key
}

/// The table after inserting `"{category_id}|{field_name}" -> field_id` for
/// each field row in order.
pub open spec fn with_category_fields(
    m: Map<Seq<char>, i32>,
    category_id: int,
    fields: Seq<SpecificationList>,
) -> Map<Seq<char>, i32>
    decreases fields.len(),
{
    if fields.len() == 0 {
        m
    } else {
        with_category_fields(m, category_id, fields.drop_last()).insert(
            spec_composite_key(category_id, fields.last().name@),
            fields.last().field_id,
        )
    }
}

/// Adds one category's specification fields to the field-id table under
/// composite `"{category_id}|{field_name}"` keys.
pub fn add_category_fields(t: &mut LookupTable, category_id: i32, fields: &Vec<SpecificationList>)
    ensures
        final(t)@ == with_category_fields(old(t)@, category_id as int, fields@),
{
    let n = fields.len();
    for i in 0..n
        invariant
            n == fields@.len(),
            t@ == with_category_fields(old(t)@, category_id as int, fields@.take(i as int)),
    {
        let key = composite_key(category_id, fields[i].name.as_str());
        t.insert(key, fields[i].field_id);
        proof {
            assert(fields@.take(i + 1).drop_last() =~= fields@.take(i as int));
            assert(fields@.take(i + 1).last() == fields@[i as int]);
        }
    }
    proof {
        assert(fields@.take(n as int) =~= fields@);
    }
}

/// The table after inserting `"{field_id}|{value}" -> field_value_id` for
/// each value row in order.
pub open spec fn with_field_values(
    m: Map<Seq<char>, i32>,
    field_id: int,
    values: Seq<FieldValueList>,
) -> Map<Seq<char>, i32>
    decreases values.len(),
{
    if values.len() == 0 {
        m
    } else {
        with_field_values(m, field_id, values.drop_last()).insert(
            spec_composite_key(field_id, values.last().value@),
            values.last().field_value_id,
        )
    }
}

/// Adds one specification field's values to the field-value-id table under
/// composite `"{field_id}|{value}"` keys.
pub fn add_field_values(t: &mut LookupTable, field_id: i32, values: &Vec<FieldValueList>)
    ensures
        final(t)@ == with_field_values(old(t)@, field_id as int, values@),
{
    let n = values.len();
    for i in 0..n
        invariant
            n == values@.len(),
            t@ == with_field_values(old(t)@, field_id as int, values@.take(i as int)),
    {
        let key = composite_key(field_id, values[i].value.as_str());
        t.insert(key, values[i].field_value_id);
        proof {
            assert(values@.take(i + 1).drop_last() =~= values@.take(i as int));
            assert(values@.take(i + 1).last() == values@[i as int]);
        }
    }
    proof {
        assert(values@.take(n as int) =~= values@);
    }
}

} // verus!
