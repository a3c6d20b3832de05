//! The seller's own inventory, as the account overview shows it.

use crate::listing::texts_of;
use crate::monitor::is_marked;
use crate::store::{
    load_store, merge_outcome, merged, render_store, rows_of, text_before, upsert_row,
    well_shaped, Row, StoreError,
};
use crate::text::{
    chars_less, chars_of, contains_ignoring_case, lemma_lex_irreflexive, lemma_lex_total,
    lemma_lex_transitive, lex_less, remove_all_chars, remove_char, skip_char, skip_char_at,
    slice_chars, split_words, string_from_chars, views, without_all, without_char, words,
};
use vstd::prelude::*;
use vstd::seq_lib::{to_multiset_build, to_multiset_contains, to_multiset_insert};
use vstd::string::StringExecFns;

verus! {

/// Column of an inventory row that holds the item id, the key of the store.
pub const ID_COLUMN: usize = 1;

/// A listing of the inventory.
#[derive(Debug, PartialEq)]
pub struct Listing {
    pub title: String,
    pub item_id: String,
    pub price: String,
    pub views: String,
    pub watchers: String,
}

/// What an inventory listing holds, as mathematical values.
pub struct ListingView {
    pub title: Seq<char>,
    pub item_id: Seq<char>,
    pub price: Seq<char>,
    pub views: Seq<char>,
    pub watchers: Seq<char>,
}

impl View for Listing {
    type V = ListingView;

    open spec fn view(&self) -> ListingView {
        ListingView {
            title: self.title@,
            item_id: self.item_id@,
            price: self.price@,
            views: self.views@,
            watchers: self.watchers@,
        }
    }
}

impl ListingView {
    /// The row that the inventory store holds for the listing.
    pub open spec fn row(self) -> Row {
        seq![self.title, self.item_id, self.price, self.views, self.watchers]
    }
}

/// What a sequence of inventory listings holds.
pub open spec fn inventory_views(listings: Seq<Listing>) -> Seq<ListingView> {
    listings.map_values(|l: Listing| l@)
}

/// The rows of a sequence of inventory listings, in order.
pub open spec fn inventory_rows(listings: Seq<ListingView>) -> Seq<Row> {
    listings.map_values(|l: ListingView| l.row())
}

/// The names of the columns of the inventory store.
pub open spec fn inventory_header() -> Row {
    seq!["title"@, "item_id"@, "price"@, "views"@, "watchers"@]
}

/// The text of an optional reading, or the fallback where it failed.
pub open spec fn text_or(reading: Option<String>, fallback: Seq<char>) -> Seq<char> {
    match reading {
        Some(text) => text@,
        None => fallback,
    }
}

/// The item id in the text of the item id element: the text without its
/// label.
pub open spec fn bare_item_id(text: Seq<char>) -> Seq<char> {
    without_all(text, "Item ID: "@)
}

/// The amount in a price text: its first word, without dollar signs at its
/// start and without commas; empty where the text has no word.
pub open spec fn price_amount(text: Seq<char>) -> Seq<char> {
    let parts = words(text);
    if parts.len() > 0 {
        let word = parts[0];
        without_char(word.subrange(skip_char(word, '$', 0), word.len() as int), ',')
    } else {
        Seq::empty()
    }
}

/// Whether one of the listings has the item id.
pub open spec fn has_id(listings: Seq<ListingView>, id: Seq<char>) -> bool {
    exists|i: int| 0 <= i < listings.len() && (#[trigger] listings[i]).item_id == id
}

/// The first listing of each item id, in their order.
pub open spec fn first_of_each_id(listings: Seq<ListingView>) -> Seq<ListingView>
    decreases listings.len(),
{
    if listings.len() == 0 {
        Seq::empty()
    } else {
        let before = first_of_each_id(listings.drop_last());
        if has_id(before, listings.last().item_id) {
            before
        } else {
            before.push(listings.last())
        }
    }
}

/// No listing has an item id that stands before that of an earlier one.
pub open spec fn sorted_by_id(listings: Seq<ListingView>) -> bool {
    forall|i: int, j: int|
        0 <= i < j < listings.len() ==> !lex_less(
            (#[trigger] listings[j]).item_id,
            (#[trigger] listings[i]).item_id,
        )
}

/// No two listings have the same item id.
pub open spec fn distinct_ids(listings: Seq<ListingView>) -> bool {
    forall|i: int, j: int|
        0 <= i < j < listings.len() ==> (#[trigger] listings[i]).item_id != (
        #[trigger] listings[j]).item_id
}

/// Each listing has an item id that stands before that of every later one.
pub open spec fn rising_by_id(listings: Seq<ListingView>) -> bool {
    forall|i: int, j: int|
        0 <= i < j < listings.len() ==> lex_less(
            (#[trigger] listings[i]).item_id,
            (#[trigger] listings[j]).item_id,
        )
}

/// Whether the browser has left the challenge page: it shows another
/// address than at first, and one without the challenge marker.
pub open spec fn left_challenge(first: Seq<char>, now: Seq<char>) -> bool {
    now != first && !is_marked(now)
}

impl Clone for Listing {
    fn clone(&self) -> (copy: Self)
        ensures
            copy@ == self@,
    {
        Listing {
            title: self.title.clone(),
            item_id: self.item_id.clone(),
            price: self.price.clone(),
            views: self.views.clone(),
            watchers: self.watchers.clone(),
        }
    }
}

fn reading_or(reading: Option<String>, fallback: &str) -> (text: String)
    ensures
        text@ == text_or(reading, fallback@),
{
    match reading {
        Some(text) => text,
        None => String::from_str(fallback),
    }
}

/// Takes the label off the text of the item id element.
pub fn strip_item_id_label(text: &str) -> (id: String)
    ensures
        id@ == bare_item_id(text@),
{
    let chars = chars_of(text);
    let label = chars_of("Item ID: ");
    let id = remove_all_chars(&chars, &label);
    string_from_chars(&id)
}

/// The amount in a price text.
pub fn price_amount_of(text: &str) -> (amount: String)
    ensures
        amount@ == price_amount(text@),
{
    let chars = chars_of(text);
    let parts = split_words(&chars);
    if parts.len() == 0 {
        return String::new();
    }
    proof {
        assert(views(parts@)[0] == parts@[0]@);
    }
    let word = &parts[0];
    let start = skip_char_at(word, '$', 0);
    let bare = slice_chars(word, start, word.len());
    let amount = remove_char(&bare, ',');
    string_from_chars(&amount)
}

/// Whether the browser has left the challenge page.
pub fn has_left_challenge(first: &str, now: &str) -> (left: bool)
    ensures
        left == left_challenge(first@, now@),
{
    let first_owned = String::from_str(first);
    let now_owned = String::from_str(now);
    now_owned != first_owned && !contains_ignoring_case(now, "captcha")
}

impl Listing {
    /// The listing that the texts read from an item element give; a text
    /// that could not be read is replaced by a fixed one.
    pub fn from_readings(
        title: Option<String>,
        item_id: Option<String>,
        price: Option<String>,
        views: Option<String>,
        watchers: Option<String>,
    ) -> (listing: Self)
        ensures
            listing@ == (ListingView {
                title: text_or(title, "<missing title>"@),
                item_id: bare_item_id(text_or(item_id, "<missing item ID>"@)),
                price: text_or(price, "<missing price>"@),
                views: text_or(views, "0"@),
                watchers: text_or(watchers, "0"@),
            }),
    {
        let labelled = reading_or(item_id, "<missing item ID>");
        Listing {
            title: reading_or(title, "<missing title>"),
            item_id: strip_item_id_label(labelled.as_str()),
            price: reading_or(price, "<missing price>"),
            views: reading_or(views, "0"),
            watchers: reading_or(watchers, "0"),
        }
    }

    /// The row that the inventory store holds for the listing.
    pub fn to_row(&self) -> (row: Vec<String>)
        ensures
            texts_of(row@) == self@.row(),
            row.len() == 5,
    {
        let mut row: Vec<String> = Vec::new();
        row.push(self.title.clone());
        row.push(self.item_id.clone());
        row.push(self.price.clone());
        row.push(self.views.clone());
        row.push(self.watchers.clone());
        proof {
            assert(texts_of(row@) =~= self@.row());
        }
        row
    }
}

/// Builds the row of column names of the inventory store.
pub fn inventory_columns() -> (row: Vec<String>)
    ensures
        texts_of(row@) == inventory_header(),
        row.len() == 5,
{
    let mut row: Vec<String> = Vec::new();
    row.push(String::from_str("title"));
    row.push(String::from_str("item_id"));
    row.push(String::from_str("price"));
    row.push(String::from_str("views"));
    row.push(String::from_str("watchers"));
    proof {
        assert(texts_of(row@) =~= inventory_header());
    }
    row
}

/// Keeps the first listing of each item id.
pub fn dedup_by_item_id(listings: Vec<Listing>) -> (kept: Vec<Listing>)
    ensures
        inventory_views(kept@) == first_of_each_id(inventory_views(listings@)),
{
    let ghost all = inventory_views(listings@);
    let ghost total = listings.len();
    let mut kept: Vec<Listing> = Vec::new();
    proof {
        assert(inventory_views(kept@) =~= Seq::empty());
        assert(all.subrange(0, 0) =~= Seq::empty());
    }
    for listing in it: listings
        invariant
            it.seq().len() == total,
            all == inventory_views(it.seq()),
            inventory_views(kept@) == first_of_each_id(all.subrange(0, it.index() as int)),
    {
        proof {
            let upto = all.subrange(0, it.index() + 1);
            assert(upto.drop_last() =~= all.subrange(0, it.index() as int));
            assert(upto.last() == listing@);
        }
        let ghost before = inventory_views(kept@);
        let mut seen = false;
        let mut k: usize = 0;
        while k < kept.len() && !seen
            invariant
                k <= kept.len(),
                before == inventory_views(kept@),
                seen ==> has_id(before, listing@.item_id),
                !seen ==> forall|j: int|
                    0 <= j < k ==> (#[trigger] before[j]).item_id != listing@.item_id,
            decreases kept.len() - k + if seen { 0int } else { 1int },
        {
            proof {
                assert(before[k as int] == kept@[k as int]@);
            }
            if kept[k].item_id == listing.item_id {
                seen = true;
            } else {
                k += 1;
            }
        }
        if !seen {
            proof {
                assert(inventory_views(kept@.push(listing)) =~= before.push(listing@));
            }
            kept.push(listing);
        }
    }
    proof {
        assert(all.subrange(0, total as int) =~= all);
    }
    kept
}

/// A listing put into sorted listings, after all those that do not stand
/// after it and before one that does, leaves them sorted.
proof fn lemma_insert_keeps_sorted(listings: Seq<ListingView>, at: int, listing: ListingView)
    requires
        sorted_by_id(listings),
        0 <= at <= listings.len(),
        forall|i: int|
            0 <= i < at ==> !lex_less(listing.item_id, (#[trigger] listings[i]).item_id),
        at < listings.len() ==> lex_less(listing.item_id, listings[at].item_id),
    ensures
        sorted_by_id(listings.insert(at, listing)),
{
    let after = listings.insert(at, listing);
    assert forall|i: int, j: int| 0 <= i < j < after.len() implies !lex_less(
        (#[trigger] after[j]).item_id,
        (#[trigger] after[i]).item_id,
    ) by {
        if j == at {
            assert(after[i] == listings[i]);
        } else if i == at {
            let later = listings[j - 1];
            assert(after[j] == later);
            if lex_less(later.item_id, listing.item_id) {
                lemma_lex_transitive(later.item_id, listing.item_id, listings[at].item_id);
                if j - 1 == at {
                    lemma_lex_irreflexive(later.item_id);
                } else {
                    assert(!lex_less(listings[j - 1].item_id, listings[at].item_id));
                }
            }
        } else {
            let a = if i < at {
                i
            } else {
                i - 1
            };
            let b = if j < at {
                j
            } else {
                j - 1
            };
            assert(after[i] == listings[a]);
            assert(after[j] == listings[b]);
            assert(!lex_less(listings[b].item_id, listings[a].item_id));
        }
    }
}

/// The first listings of each item id have item ids that are all distinct.
pub proof fn lemma_first_of_each_id_distinct(listings: Seq<ListingView>)
    ensures
        distinct_ids(first_of_each_id(listings)),
    decreases listings.len(),
{
    if listings.len() > 0 {
        lemma_first_of_each_id_distinct(listings.drop_last());
    }
}

/// Where the listings sorted so far are those taken so far, in another
/// order, and no two listings have one item id, none of the listings sorted
/// so far has the item id of the listing taken next.
proof fn lemma_next_id_is_new(all: Seq<ListingView>, next: int, sorted: Seq<ListingView>)
    requires
        distinct_ids(all),
        0 <= next < all.len(),
        sorted.to_multiset() == all.subrange(0, next).to_multiset(),
    ensures
        forall|i: int|
            0 <= i < sorted.len() ==> (#[trigger] sorted[i]).item_id != all[next].item_id,
{
    let taken = all.subrange(0, next);
    assert forall|i: int| 0 <= i < sorted.len() implies (#[trigger] sorted[i]).item_id
        != all[next].item_id by {
        assert(sorted.contains(sorted[i]));
        to_multiset_contains(sorted, sorted[i]);
        to_multiset_contains(taken, sorted[i]);
        assert(sorted.to_multiset().count(sorted[i]) > 0);
        assert(taken.contains(sorted[i]));
        let k = choose|k: int| 0 <= k < taken.len() && taken[k] == sorted[i];
        assert(all[k] == sorted[i]);
    }
}

/// A listing with a new item id, put into listings whose ids rise, after
/// all those that do not stand after it and before one that does, leaves
/// the ids rising.
proof fn lemma_insert_keeps_rising(listings: Seq<ListingView>, at: int, listing: ListingView)
    requires
        rising_by_id(listings),
        0 <= at <= listings.len(),
        forall|i: int|
            0 <= i < listings.len() ==> (#[trigger] listings[i]).item_id != listing.item_id,
        forall|i: int|
            0 <= i < at ==> !lex_less(listing.item_id, (#[trigger] listings[i]).item_id),
        at < listings.len() ==> lex_less(listing.item_id, listings[at].item_id),
    ensures
        rising_by_id(listings.insert(at, listing)),
{
    let after = listings.insert(at, listing);
    assert forall|i: int, j: int| 0 <= i < j < after.len() implies lex_less(
        (#[trigger] after[i]).item_id,
        (#[trigger] after[j]).item_id,
    ) by {
        if j == at {
            assert(after[i] == listings[i]);
            lemma_lex_total(listings[i].item_id, listing.item_id);
        } else if i == at {
            assert(after[j] == listings[j - 1]);
            if j - 1 != at {
                assert(lex_less(listings[at].item_id, listings[j - 1].item_id));
                lemma_lex_transitive(
                    listing.item_id,
                    listings[at].item_id,
                    listings[j - 1].item_id,
                );
            }
        } else {
            let a = if i < at {
                i
            } else {
                i - 1
            };
            let b = if j < at {
                j
            } else {
                j - 1
            };
            assert(after[i] == listings[a]);
            assert(after[j] == listings[b]);
            assert(lex_less(listings[a].item_id, listings[b].item_id));
        }
    }
}

fn sort_by_item_id(listings: Vec<Listing>) -> (sorted: Vec<Listing>)
    ensures
        sorted_by_id(inventory_views(sorted@)),
        inventory_views(sorted@).to_multiset() == inventory_views(listings@).to_multiset(),
        distinct_ids(inventory_views(listings@)) ==> rising_by_id(inventory_views(sorted@)),
{
    let ghost all = inventory_views(listings@);
    let ghost total = listings.len();
    let mut sorted: Vec<Listing> = Vec::new();
    proof {
        assert(inventory_views(sorted@) =~= Seq::empty());
        assert(all.subrange(0, 0) =~= Seq::empty());
    }
    for listing in it: listings
        invariant
            it.seq().len() == total,
            all == inventory_views(it.seq()),
            sorted_by_id(inventory_views(sorted@)),
            inventory_views(sorted@).to_multiset() == all.subrange(
                0,
                it.index() as int,
            ).to_multiset(),
            distinct_ids(all) ==> rising_by_id(inventory_views(sorted@)),
    {
        let ghost before = inventory_views(sorted@);
        proof {
            assert(all[it.index() as int] == listing@);
        }
        let id = chars_of(listing.item_id.as_str());
        let mut at: usize = 0;
        let mut found = false;
        while at < sorted.len() && !found
            invariant
                at <= sorted.len(),
                before == inventory_views(sorted@),
                id@ == listing@.item_id,
                found ==> at < sorted.len() && lex_less(id@, before[at as int].item_id),
                forall|i: int| 0 <= i < at ==> !lex_less(id@, (#[trigger] before[i]).item_id),
            decreases sorted.len() - at + if found { 0int } else { 1int },
        {
            proof {
                assert(before[at as int] == sorted@[at as int]@);
            }
            let other = chars_of(sorted[at].item_id.as_str());
            if chars_less(&id, &other) {
                found = true;
            } else {
                at += 1;
            }
        }
        proof {
            let upto = all.subrange(0, it.index() + 1);
            assert(upto =~= all.subrange(0, it.index() as int).push(listing@));
            to_multiset_build(all.subrange(0, it.index() as int), listing@);
            to_multiset_insert(before, at as int, listing@);
            lemma_insert_keeps_sorted(before, at as int, listing@);
            if distinct_ids(all) {
                lemma_next_id_is_new(all, it.index() as int, before);
                lemma_insert_keeps_rising(before, at as int, listing@);
            }
            assert(inventory_views(sorted@.insert(at as int, listing)) =~= before.insert(
                at as int,
                listing@,
            ));
        }
        sorted.insert(at, listing);
    }
    proof {
        assert(all.subrange(0, total as int) =~= all);
    }
    sorted
}

/// Arranges the listings read from the account overview: the first listing
/// of each item id is kept, and the listings kept are put in the order of
/// their item ids, which is the order of strings.
pub fn scrape_listings(listings: Vec<Listing>) -> (arranged: Vec<Listing>)
    ensures
        rising_by_id(inventory_views(arranged@)),
        inventory_views(arranged@).to_multiset() == first_of_each_id(
            inventory_views(listings@),
        ).to_multiset(),
{
    proof {
        lemma_first_of_each_id_distinct(inventory_views(listings@));
    }
    sort_by_item_id(dedup_by_item_id(listings))
}

/// Merges inventory listings into the inventory store and returns the text
/// of the whole store, to be written in place of the old one. `existing` is
/// the text of the store as it stands, or `None` where there is none yet.
pub fn write_listings_to_csv(new_listings: &Vec<Listing>, existing: Option<&str>) -> (outcome:
    Result<String, StoreError>)
    ensures
        match outcome {
            Ok(text) => merge_outcome(
                text_before(existing),
                inventory_header(),
                ID_COLUMN as int,
                inventory_rows(inventory_views(new_listings@)),
            ) == Ok::<Seq<char>, StoreError>(text@),
            Err(error) => merge_outcome(
                text_before(existing),
                inventory_header(),
                ID_COLUMN as int,
                inventory_rows(inventory_views(new_listings@)),
            ) == Err::<Seq<char>, StoreError>(error),
        },
{
    let names = inventory_columns();
    let mut rows = match existing {
        Some(text) => match load_store(text, &names, ID_COLUMN) {
            Ok(rows) => rows,
            Err(error) => {
                return Err(error);
            },
        },
        None => {
            let rows: Vec<Vec<String>> = Vec::new();
            proof {
                assert(rows_of(rows@) =~= Seq::empty());
            }
            rows
        },
    };
    let ghost start = rows_of(rows@);
    let ghost more = inventory_rows(inventory_views(new_listings@));
    proof {
        assert(more.subrange(0, 0) =~= Seq::empty());
    }
    let mut i: usize = 0;
    while i < new_listings.len()
        invariant
            i <= new_listings.len(),
            more == inventory_rows(inventory_views(new_listings@)),
            well_shaped(rows_of(rows@), 5),
            rows_of(rows@) == merged(start, ID_COLUMN as int, more.subrange(0, i as int)),
        decreases new_listings.len() - i,
    {
        proof {
            let upto = more.subrange(0, i + 1);
            assert(upto.drop_last() =~= more.subrange(0, i as int));
            assert(upto.last() == new_listings@[i as int]@.row());
        }
        upsert_row(&mut rows, ID_COLUMN, new_listings[i].to_row());
        i += 1;
    }
    proof {
        assert(more.subrange(0, new_listings.len() as int) =~= more);
    }
    Ok(render_store(&names, &rows))
}

} // verus!
