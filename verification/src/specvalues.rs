//! Grouping of specification values for the SKU spec association file:
//! from `(product id, optional value)` rows, the distinct values each
//! product allows, one group per product id.

use vstd::prelude::*;

verus! {

/// Whether some row carries this key with this value.
pub open spec fn rows_contain(rows: Seq<(i32, Option<String>)>, key: i32, value: Seq<char>) -> bool {
    exists|j: int|
        #![trigger rows[j]]
        0 <= j < rows.len() && rows[j].0 == key && (rows[j].1 matches Some(v) && v@ == value)
}

/// Whether some row carries this key with any value.
pub open spec fn rows_have_key(rows: Seq<(i32, Option<String>)>, key: i32) -> bool {
    exists|j: int|
        #![trigger rows[j]]
        0 <= j < rows.len() && rows[j].0 == key && rows[j].1 is Some
}

/// The values a list of strings holds, as character sequences.
pub open spec fn value_set(values: Seq<String>) -> Set<Seq<char>> {
    Set::new(
        |v: Seq<char>|
            exists|x: int| #![trigger values[x]] 0 <= x < values.len() && values[x]@ == v,
    )
}

/// The keys of a list of groups.
pub open spec fn key_set(groups: Seq<(i32, Vec<String>)>) -> Set<i32> {
    Set::new(
        |k: i32| exists|a: int| #![trigger groups[a]] 0 <= a < groups.len() && groups[a].0 == k,
    )
}

/// A group holds no value twice.
pub open spec fn group_distinct(g: (i32, Vec<String>)) -> bool {
    forall|x: int, y: int|
        0 <= x < y < g.1@.len() ==> (#[trigger] g.1@[x])@ != (#[trigger] g.1@[y])@
}

/// Every value of the group comes from a row with the group's key.
pub open spec fn group_sound(rows: Seq<(i32, Option<String>)>, g: (i32, Vec<String>)) -> bool {
    forall|x: int| 0 <= x < g.1@.len() ==> rows_contain(rows, g.0, (#[trigger] g.1@[x])@)
}

/// Every value any row carries under the group's key is in the group.
pub open spec fn group_complete(rows: Seq<(i32, Option<String>)>, g: (i32, Vec<String>)) -> bool {
    forall|j: int|
        #![trigger rows[j]]
        0 <= j < rows.len() && rows[j].0 == g.0 && rows[j].1 is Some ==> value_set(
            g.1@,
        ).contains(rows[j].1->0@)
}

fn values_hold(values: &Vec<String>, value: &String) -> (r: bool)
    ensures
        r == value_set(values@).contains(value@),
{
    let n = values.len();
    let mut r = false;
    for x in 0..n
        invariant
            n == values@.len(),
            r == exists|y: int| #![trigger values@[y]] 0 <= y < x && values@[y]@ == value@,
    {
        if values[x] == *value {
            r = true;
        }
    }
    proof {
        if r {
            assert(value_set(values@).contains(value@));
        }
    }
    r
}

fn collect_values_for_key(rows: &Vec<(i32, Option<String>)>, key: i32) -> (values: Vec<String>)
    ensures
        group_distinct((key, values)),
        group_sound(rows@, (key, values)),
        group_complete(rows@, (key, values)),
{
    let mut values: Vec<String> = Vec::new();
    let n = rows.len();
    for j in 0..n
        invariant
            n == rows@.len(),
            forall|x: int, y: int|
                0 <= x < y < values@.len() ==> (#[trigger] values@[x])@ != (
                #[trigger] values@[y])@,
            forall|x: int|
                0 <= x < values@.len() ==> rows_contain(rows@, key, (#[trigger] values@[x])@),
            forall|i: int|
                #![trigger rows@[i]]
                0 <= i < j && rows@[i].0 == key && rows@[i].1 is Some ==> value_set(
                    values@,
                ).contains(rows@[i].1->0@),
    {
        if rows[j].0 == key {
            match &rows[j].1 {
                Some(value) => {
                    if !values_hold(&values, value) {
                        let ghost prior = values@;
                        values.push(value.clone());
                        proof {
                            let m = prior.len() as int;
                            assert(values@[m]@ == rows@[j as int].1->0@);
                            assert(rows_contain(rows@, key, values@[m]@));
                            assert forall|x: int, y: int|
                                0 <= x < y < values@.len() implies (#[trigger] values@[x])@ != (
                            #[trigger] values@[y])@ by {
                                if y == m {
                                    assert(!value_set(prior).contains(values@[m]@));
                                    assert(value_set(prior).contains(prior[x]@));
                                }
                            }
                            assert forall|i: int|
                                0 <= i < j + 1 && (#[trigger] rows@[i]).0 == key && rows@[i].1 is Some implies value_set(
                                values@,
                            ).contains(rows@[i].1->0@) by {
                                if i < j {
                                    assert(value_set(prior).contains(rows@[i].1->0@));
                                    let x0 = choose|x: int|
                                        0 <= x < prior.len() && (#[trigger] prior[x])@ == rows@[i].1->0@;
                                    assert(values@[x0]@ == rows@[i].1->0@);
                                    assert(value_set(values@).contains(rows@[i].1->0@));
                                } else {
                                    assert(value_set(values@).contains(values@[m]@));
                                }
                            }
                        }
                    } else {
                        proof {
                            assert(value_set(values@).contains(rows@[j as int].1->0@));
                        }
                    }
                },
                None => {},
            }
        }
    }
    values
}

fn find_group(groups: &Vec<(i32, Vec<String>)>, key: i32) -> (r: bool)
    ensures
        r == key_set(groups@).contains(key),
{
    let n = groups.len();
    let mut r = false;
    for a in 0..n
        invariant
            n == groups@.len(),
            r == exists|b: int| #![trigger groups@[b]] 0 <= b < a && groups@[b].0 == key,
    {
        if groups[a].0 == key {
            r = true;
        }
    }
    proof {
        if r {
            assert(key_set(groups@).contains(key));
        }
    }
    r
}

/// Groups the rows by product id: one group per distinct id that carries a
/// value, holding exactly the distinct values the rows carry under that id.
pub fn collect_allowed_values(rows: &Vec<(i32, Option<String>)>) -> (groups: Vec<(
    i32,
    Vec<String>,
)>)
    ensures
        forall|a: int, b: int|
            0 <= a < b < groups@.len() ==> (#[trigger] groups@[a]).0 != (#[trigger] groups@[b]).0,
        forall|a: int| 0 <= a < groups@.len() ==> rows_have_key(rows@, (#[trigger] groups@[a]).0),
        forall|a: int|
            0 <= a < groups@.len() ==> group_distinct(#[trigger] groups@[a]) && group_sound(
                rows@,
                groups@[a],
            ) && group_complete(rows@, groups@[a]),
        forall|j: int|
            #![trigger rows@[j]]
            0 <= j < rows@.len() && rows@[j].1 is Some ==> key_set(groups@).contains(rows@[j].0),
{
    let mut groups: Vec<(i32, Vec<String>)> = Vec::new();
    let n = rows.len();
    for i in 0..n
        invariant
            n == rows@.len(),
            forall|a: int, b: int|
                0 <= a < b < groups@.len() ==> (#[trigger] groups@[a]).0 != (
                #[trigger] groups@[b]).0,
            forall|a: int|
                0 <= a < groups@.len() ==> rows_have_key(rows@, (#[trigger] groups@[a]).0),
            forall|a: int|
                0 <= a < groups@.len() ==> group_distinct(#[trigger] groups@[a]) && group_sound(
                    rows@,
                    groups@[a],
                ) && group_complete(rows@, groups@[a]),
            forall|j: int|
                #![trigger rows@[j]]
                0 <= j < i && rows@[j].1 is Some ==> key_set(groups@).contains(rows@[j].0),
    {
        if rows[i].1.is_some() {
            let key = rows[i].0;
            if !find_group(&groups, key) {
                let values = collect_values_for_key(rows, key);
                let ghost prior = groups@;
                groups.push((key, values));
                proof {
                    let m = prior.len() as int;
                    assert(groups@[m].0 == key && groups@[m].1 == values);
                    assert(rows_have_key(rows@, key));
                    assert forall|a: int, b: int|
                        0 <= a < b < groups@.len() implies (#[trigger] groups@[a]).0 != (
                    #[trigger] groups@[b]).0 by {
                        if b == m {
                            assert(key_set(prior).contains(prior[a].0));
                        }
                    }
                    assert forall|j: int|
                        0 <= j < i + 1 && (#[trigger] rows@[j]).1 is Some implies key_set(
                        groups@,
                    ).contains(rows@[j].0) by {
                        if j < i {
                            assert(key_set(prior).contains(rows@[j].0));
                            let a0 = choose|a: int|
                                0 <= a < prior.len() && (#[trigger] prior[a]).0 == rows@[j].0;
                            assert(groups@[a0].0 == rows@[j].0);
                            assert(key_set(groups@).contains(rows@[j].0));
                        } else {
                            assert(key_set(groups@).contains(groups@[m].0));
                        }
                    }
                }
            } else {
                proof {
                    assert(key_set(groups@).contains(rows@[i as int].0));
                }
            }
        }
    }
    groups
}

} // verus!
