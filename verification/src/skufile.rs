//! Generation of image-file rows for stock keeping units: cleaning the
//! display name into a file-friendly name, splitting the semicolon-joined
//! image URL list, and building one row per image, with only a product's
//! first stock keeping unit carrying the main image.

use vstd::hash_set::StringHashSet;
use vstd::prelude::*;
use vstd::string::*;

use crate::model::SkuFile;
use crate::numtext::{spec_decimal, u64_to_string};

verus! {

/// What stripping the name leaves: the characters that survive deleting
/// every match of the word/space/dash exclusion pattern. The result depends
/// on the input characters alone.
pub uninterp spec fn cleaned_of(s: Seq<char>) -> Seq<char>;

/// Relies on regex's `Regex::new` and `Regex::replace_all`: replacing every
/// match of the constant pattern `([^\w\s-])` with nothing deletes
/// characters only, so the result never grows, and an empty input stays
/// empty.
#[verifier::external_body]
fn strip_special(name: &str) -> (r: String)
    ensures
        r@ == cleaned_of(name@),
        r@.len() <= name@.len(),
        name@.len() == 0 ==> r@.len() == 0,
{
    let re = regex::Regex::new(r"([^\w\s-])").unwrap();
    re.replace_all(name, "").into_owned()
}

/// Relies on std's `str::replace` with a single-character pattern: every
/// space becomes a dash and every other character is kept unchanged.
#[verifier::external_body]
fn dash_for_spaces(name: &str) -> (r: String)
    ensures
        r@ == name@.map_values(|c: char| if c == ' ' { '-' } else { c }),
{
    name.replace(' ', "-")
}

/// The file-friendly form of a display name: spaces become dashes, then
/// every character outside the word, whitespace and dash classes is
/// stripped.
pub open spec fn spec_friendly_name(name: Seq<char>) -> Seq<char> {
    cleaned_of(name.map_values(|c: char| if c == ' ' { '-' } else { c }))
}

/// Cleans a display name into a file-friendly name.
pub fn friendly_name(name: &str) -> (r: String)
    ensures
        r@ == spec_friendly_name(name@),
{
    let dashed = dash_for_spaces(name);
    strip_special(dashed.as_str())
}

/// The pieces joined back with one semicolon between each pair.
pub open spec fn spec_join_urls(parts: Seq<Seq<char>>) -> Seq<char>
    decreases parts.len(),
{
    if parts.len() == 0 {
        Seq::empty()
    } else if parts.len() == 1 {
        parts.last()
    } else {
        spec_join_urls(parts.drop_last()) + seq![';'] + parts.last()
    }
}

/// The views of a list of strings.
pub open spec fn url_views(parts: Seq<String>) -> Seq<Seq<char>> {
    parts.map_values(|p: String| p@)
}

/// Splits a semicolon-joined URL list into its pieces: at least one piece
/// always comes back, no piece contains a semicolon, and joining the pieces
/// with semicolons restores the input exactly.
pub fn split_urls(joined: &str) -> (parts: Vec<String>)
    ensures
        parts@.len() >= 1,
        forall|i: int, k: int|
            0 <= i < parts@.len() && 0 <= k < parts@[i]@.len() ==> #[trigger] parts@[i]@[k]
                != ';',
        spec_join_urls(url_views(parts@)) == joined@,
{
    let mut parts: Vec<String> = Vec::new();
    let mut start: usize = 0;
    let total = joined.unicode_len();
    for i in 0..total
        invariant
            total == joined@.len(),
            start <= i,
            parts@.len() == 0 ==> start == 0,
            parts@.len() >= 1 ==> spec_join_urls(url_views(parts@)) + seq![';'] == joined@.take(
                start as int,
            ),
            forall|a: int, k: int|
                0 <= a < parts@.len() && 0 <= k < parts@[a]@.len() ==> #[trigger] parts@[a]@[k]
                    != ';',
            forall|k: int| start <= k < i ==> joined@[k] != ';',
    {
        if joined.get_char(i) == ';' {
            let ghost prior = parts@;
            let piece = joined.substring_char(start, i).to_owned();
            parts.push(piece);
            proof {
                assert(url_views(parts@) =~= url_views(prior).push(
                    joined@.subrange(start as int, i as int),
                ));
                if prior.len() == 0 {
                    assert(spec_join_urls(url_views(parts@)) == joined@.subrange(0, i as int));
                    assert(joined@.subrange(0, i as int) =~= joined@.take(i as int));
                } else {
                    assert(url_views(parts@).drop_last() =~= url_views(prior));
                    assert(spec_join_urls(url_views(parts@)) == spec_join_urls(url_views(prior))
                        + seq![';'] + joined@.subrange(start as int, i as int));
                    assert(joined@.take(start as int) + joined@.subrange(start as int, i as int)
                        =~= joined@.take(i as int));
                }
                assert(spec_join_urls(url_views(parts@)) + seq![';'] =~= joined@.take(i as int)
                    + seq![joined@[i as int]]);
                assert(joined@.take(i as int) + seq![joined@[i as int]] =~= joined@.take(
                    i + 1,
                ));
            }
            start = i + 1;
        }
    }
    let ghost prior = parts@;
    let piece = joined.substring_char(start, total).to_owned();
    parts.push(piece);
    proof {
        assert(url_views(parts@) =~= url_views(prior).push(
            joined@.subrange(start as int, total as int),
        ));
        if prior.len() == 0 {
            assert(spec_join_urls(url_views(parts@)) == joined@.subrange(0, total as int));
            assert(joined@.subrange(0, total as int) =~= joined@);
        } else {
            assert(url_views(parts@).drop_last() =~= url_views(prior));
            assert(spec_join_urls(url_views(parts@)) == spec_join_urls(url_views(prior))
                + seq![';'] + joined@.subrange(start as int, total as int));
            assert(joined@.take(start as int) + joined@.subrange(start as int, total as int)
                =~= joined@);
        }
    }
    parts
}

/// Tracks which product reference ids have already appeared in a run, so
/// that only a product's first stock keeping unit carries the main image.
pub struct FirstSeen {
    seen: StringHashSet,
}

impl View for FirstSeen {
    type V = Set<Seq<char>>;

    closed spec fn view(&self) -> Set<Seq<char>> {
        self.seen@
    }
}

impl FirstSeen {
    /// Starts a run with no product reference id seen yet.
    pub fn new() -> (s: Self)
        ensures
            s@ == Set::<Seq<char>>::empty(),
    {
        FirstSeen { seen: StringHashSet::new() }
    }

    /// Tells whether the key appears for the first time, and records it.
    pub fn check_and_record(&mut self, key: &str) -> (first: bool)
        ensures
            first == !old(self)@.contains(key@),
            final(self)@ == old(self)@.insert(key@),
    {
        let first = !self.seen.contains(key);
        if first {
            self.seen.insert(key.to_owned());
        } else {
            proof {
                assert(self.seen@ =~= self.seen@.insert(key@));
            }
        }
        first
    }
}

/// One image-file row per image URL of a stock keeping unit, named and
/// labelled `{name}_{k}` with `k` counting from one; every row carries the
/// given main-image mark and no remote ids yet.
pub fn sku_file_rows(sku_id: i32, is_main: bool, name: &str, urls: &Vec<String>) -> (rows: Vec<
    SkuFile,
>)
    requires
        urls@.len() < 1_000_000,
    ensures
        rows@.len() == urls@.len(),
        forall|k: int|
            0 <= k < rows@.len() ==> {
                &&& (#[trigger] rows@[k]).id is None
                &&& rows@[k].sku_id == sku_id
                &&& rows@[k].archive_id is None
                &&& rows@[k].is_main == Some(is_main)
                &&& rows@[k].name matches Some(n) && n@ == name@ + seq!['_'] + spec_decimal(
                    (k + 1) as nat,
                )
                &&& rows@[k].label matches Some(l) && l@ == name@ + seq!['_'] + spec_decimal(
                    (k + 1) as nat,
                )
                &&& rows@[k].url matches Some(u) && u@ == urls@[k]@
            },
{
    let mut rows: Vec<SkuFile> = Vec::new();
    let n = urls.len();
    for i in 0..n
        invariant
            n == urls@.len(),
            n < 1_000_000,
            rows@.len() == i,
            forall|k: int|
                0 <= k < rows@.len() ==> {
                    &&& (#[trigger] rows@[k]).id is None
                    &&& rows@[k].sku_id == sku_id
                    &&& rows@[k].archive_id is None
                    &&& rows@[k].is_main == Some(is_main)
                    &&& rows@[k].name matches Some(nm) && nm@ == name@ + seq!['_'] + spec_decimal(
                        (k + 1) as nat,
                    )
                    &&& rows@[k].label matches Some(l) && l@ == name@ + seq!['_'] + spec_decimal(
                        (k + 1) as nat,
                    )
                    &&& rows@[k].url matches Some(u) && u@ == urls@[k]@
                },
    {
        proof {
            reveal_strlit("_");
        }
        let numbered = String::from_str(name).concat("_");
        let counter = u64_to_string((i + 1) as u64);
        let file_name = numbered.concat(counter.as_str());
        let row = SkuFile {
            id: None,
            sku_id,
            archive_id: None,
            name: Some(file_name.clone()),
            is_main: Some(is_main),
            label: Some(file_name),
            url: Some(urls[i].clone()),
        };
        proof {
            assert(row.name->0@ =~= name@ + seq!['_'] + spec_decimal((i + 1) as nat));
        }
        rows.push(row);
    }
    rows
}

} // verus!
