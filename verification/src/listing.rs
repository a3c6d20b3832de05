//! A marketplace listing and its row in the listing store.

use crate::text::{
    chars_of, decimal, join_chars, joined, push_decimal, string_from_chars, views,
};
use vstd::prelude::*;
use vstd::string::StringExecFns;

verus! {

/// Number of columns of a store row.
pub const COLUMNS: usize = 17;

/// Column of a store row that holds the item id, the key of the store.
pub const KEY_COLUMN: usize = 12;

/// A listing of the marketplace, as scraped from the listing index and
/// filled in from the item's own page.
#[derive(Debug, PartialEq)]
pub struct Listing {
    pub title: String,
    pub price: String,
    pub shipping: Option<String>,
    pub condition: Option<String>,
    pub watchers: Option<u32>,
    pub seller: Option<String>,
    pub seller_feedback: Option<String>,
    pub buy_it_now: bool,
    pub accepts_offers: bool,
    pub location: Option<String>,
    pub quantity_available: Option<u32>,
    pub is_new_listing: bool,
    pub item_id: Option<String>,
    pub url: Option<String>,
    pub notes: Vec<String>,
    pub item_specifics: Vec<String>,
    pub description: Option<String>,
}

/// What a listing holds, as mathematical values.
pub struct ListingView {
    pub title: Seq<char>,
    pub price: Seq<char>,
    pub shipping: Option<Seq<char>>,
    pub condition: Option<Seq<char>>,
    pub watchers: Option<u32>,
    pub seller: Option<Seq<char>>,
    pub seller_feedback: Option<Seq<char>>,
    pub buy_it_now: bool,
    pub accepts_offers: bool,
    pub location: Option<Seq<char>>,
    pub quantity_available: Option<u32>,
    pub is_new_listing: bool,
    pub item_id: Option<Seq<char>>,
    pub url: Option<Seq<char>>,
    pub notes: Seq<Seq<char>>,
    pub item_specifics: Seq<Seq<char>>,
    pub description: Option<Seq<char>>,
}

/// The text that an optional string holds.
pub open spec fn text_of(value: Option<String>) -> Option<Seq<char>> {
    match value {
        Some(s) => Some(s@),
        None => None,
    }
}

/// The texts that a sequence of strings holds.
pub open spec fn texts_of(values: Seq<String>) -> Seq<Seq<char>> {
    values.map_values(|s: String| s@)
}

/// What a sequence of listings holds.
pub open spec fn listing_views(listings: Seq<Listing>) -> Seq<ListingView> {
    listings.map_values(|l: Listing| l@)
}

impl View for Listing {
    type V = ListingView;

    open spec fn view(&self) -> ListingView {
        ListingView {
            title: self.title@,
            price: self.price@,
            shipping: text_of(self.shipping),
            condition: text_of(self.condition),
            watchers: self.watchers,
            seller: text_of(self.seller),
            seller_feedback: text_of(self.seller_feedback),
            buy_it_now: self.buy_it_now,
            accepts_offers: self.accepts_offers,
            location: text_of(self.location),
            quantity_available: self.quantity_available,
            is_new_listing: self.is_new_listing,
            item_id: text_of(self.item_id),
            url: text_of(self.url),
            notes: texts_of(self.notes@),
            item_specifics: texts_of(self.item_specifics@),
            description: text_of(self.description),
        }
    }
}

impl ListingView {
    /// The listing with nothing filled in.
    pub open spec fn blank() -> ListingView {
        ListingView {
            title: Seq::empty(),
            price: Seq::empty(),
            shipping: None,
            condition: None,
            watchers: None,
            seller: None,
            seller_feedback: None,
            buy_it_now: false,
            accepts_offers: false,
            location: None,
            quantity_available: None,
            is_new_listing: false,
            item_id: None,
            url: None,
            notes: Seq::empty(),
            item_specifics: Seq::empty(),
            description: None,
        }
    }

    /// A listing is kept exactly when it has both a title and a price.
    pub open spec fn acceptable(self) -> bool {
        self.title.len() > 0 && self.price.len() > 0
    }

    /// The key under which the store holds the listing: its item id, or the
    /// empty text where it has none.
    pub open spec fn key(self) -> Seq<char> {
        or_empty(self.item_id)
    }

    /// The row that the store holds for the listing, column by column.
    pub open spec fn row(self) -> Seq<Seq<char>> {
        seq![
            self.title,
            self.price,
            or_empty(self.shipping),
            or_empty(self.condition),
            count_text(self.watchers),
            or_empty(self.seller),
            or_empty(self.seller_feedback),
            flag_text(self.buy_it_now),
            flag_text(self.accepts_offers),
            or_empty(self.location),
            count_text(self.quantity_available),
            flag_text(self.is_new_listing),
            or_empty(self.item_id),
            or_empty(self.url),
            joined(self.notes, "; "@),
            joined(self.item_specifics, "; "@),
            or_empty(self.description),
        ]
    }
}

/// The text of an optional field: empty where the field is absent.
pub open spec fn or_empty(value: Option<Seq<char>>) -> Seq<char> {
    match value {
        Some(s) => s,
        None => Seq::empty(),
    }
}

/// The text of an optional count: its decimal notation, empty where absent.
pub open spec fn count_text(value: Option<u32>) -> Seq<char> {
    match value {
        Some(n) => decimal(n as nat),
        None => Seq::empty(),
    }
}

/// The text of a flag.
pub open spec fn flag_text(flag: bool) -> Seq<char> {
    if flag {
        "true"@
    } else {
        "false"@
    }
}

/// Copies an optional string.
pub fn copy_text(value: &Option<String>) -> (copy: Option<String>)
    ensures
        copy == *value,
{
    match value {
        Some(s) => Some(s.clone()),
        None => None,
    }
}

/// Copies a vector of strings.
pub fn copy_texts(values: &Vec<String>) -> (copy: Vec<String>)
    ensures
        copy@ == values@,
{
    let mut copy: Vec<String> = Vec::new();
    let mut i: usize = 0;
    while i < values.len()
        invariant
            i <= values.len(),
            copy@ == values@.subrange(0, i as int),
        decreases values.len() - i,
    {
        copy.push(values[i].clone());
        i += 1;
    }
    proof {
        assert(values@.subrange(0, values.len() as int) =~= values@);
    }
    copy
}

fn field_or_empty(value: &Option<String>) -> (field: String)
    ensures
        field@ == or_empty(text_of(*value)),
{
    match value {
        Some(s) => s.clone(),
        None => String::new(),
    }
}

fn count_field(value: Option<u32>) -> (field: String)
    ensures
        field@ == count_text(value),
{
    match value {
        Some(n) => {
            let mut digits: Vec<char> = Vec::new();
            push_decimal(n as u64, &mut digits);
            proof {
                assert(Seq::<char>::empty() + decimal(n as nat) =~= decimal(n as nat));
            }
            string_from_chars(&digits)
        },
        None => String::new(),
    }
}

fn flag_field(flag: bool) -> (field: String)
    ensures
        field@ == flag_text(flag),
{
    if flag {
        String::from_str("true")
    } else {
        String::from_str("false")
    }
}

/// Joins texts with `sep` between each two neighbours.
pub fn join_texts(parts: &Vec<String>, sep: &str) -> (out: String)
    ensures
        out@ == joined(texts_of(parts@), sep@),
{
    let mut chars: Vec<Vec<char>> = Vec::new();
    let mut i: usize = 0;
    while i < parts.len()
        invariant
            i <= parts.len(),
            chars.len() == i,
            views(chars@) == texts_of(parts@.subrange(0, i as int)),
        decreases parts.len() - i,
    {
        let part = chars_of(parts[i].as_str());
        proof {
            let before = texts_of(parts@.subrange(0, i as int));
            let after = texts_of(parts@.subrange(0, i + 1));
            assert forall|k: int| 0 <= k < after.len() implies views(chars@.push(part))[k]
                == after[k] by {
                if k < i {
                    assert(views(chars@)[k] == before[k]);
                }
            }
            assert(views(chars@.push(part)) =~= after);
        }
        chars.push(part);
        i += 1;
    }
    proof {
        assert(parts@.subrange(0, parts.len() as int) =~= parts@);
    }
    let sep_chars = chars_of(sep);
    let out = join_chars(&chars, &sep_chars);
    string_from_chars(&out)
}

impl Default for Listing {
    fn default() -> (listing: Self)
        ensures
            listing@ == ListingView::blank(),
    {
        let listing = Listing {
            title: String::new(),
            price: String::new(),
            shipping: None,
            condition: None,
            watchers: None,
            seller: None,
            seller_feedback: None,
            buy_it_now: false,
            accepts_offers: false,
            location: None,
            quantity_available: None,
            is_new_listing: false,
            item_id: None,
            url: None,
            notes: Vec::new(),
            item_specifics: Vec::new(),
            description: None,
        };
        proof {
            assert(listing@.notes =~= Seq::empty());
            assert(listing@.item_specifics =~= Seq::empty());
        }
        listing
    }
}

impl Clone for Listing {
    fn clone(&self) -> (copy: Self)
        ensures
            copy@ == self@,
    {
        Listing {
            title: self.title.clone(),
            price: self.price.clone(),
            shipping: copy_text(&self.shipping),
            condition: copy_text(&self.condition),
            watchers: self.watchers,
            seller: copy_text(&self.seller),
            seller_feedback: copy_text(&self.seller_feedback),
            buy_it_now: self.buy_it_now,
            accepts_offers: self.accepts_offers,
            location: copy_text(&self.location),
            quantity_available: self.quantity_available,
            is_new_listing: self.is_new_listing,
            item_id: copy_text(&self.item_id),
            url: copy_text(&self.url),
            notes: copy_texts(&self.notes),
            item_specifics: copy_texts(&self.item_specifics),
            description: copy_text(&self.description),
        }
    }
}

impl Listing {
    /// Whether the listing has both a title and a price.
    pub fn is_acceptable(&self) -> (kept: bool)
        ensures
            kept == self@.acceptable(),
    {
        !self.title.as_str().is_empty() && !self.price.as_str().is_empty()
    }

    /// The key under which the store holds the listing.
    pub fn key(&self) -> (key: String)
        ensures
            key@ == self@.key(),
    {
        field_or_empty(&self.item_id)
    }

    /// The row that the store holds for the listing.
    pub fn to_row(&self) -> (row: Vec<String>)
        ensures
            texts_of(row@) == self@.row(),
            row.len() == COLUMNS,
    {
        let mut row: Vec<String> = Vec::new();
        row.push(self.title.clone());
        row.push(self.price.clone());
        row.push(field_or_empty(&self.shipping));
        row.push(field_or_empty(&self.condition));
        row.push(count_field(self.watchers));
        row.push(field_or_empty(&self.seller));
        row.push(field_or_empty(&self.seller_feedback));
        row.push(flag_field(self.buy_it_now));
        row.push(flag_field(self.accepts_offers));
        row.push(field_or_empty(&self.location));
        row.push(count_field(self.quantity_available));
        row.push(flag_field(self.is_new_listing));
        row.push(field_or_empty(&self.item_id));
        row.push(field_or_empty(&self.url));
        row.push(join_texts(&self.notes, "; "));
        row.push(join_texts(&self.item_specifics, "; "));
        row.push(field_or_empty(&self.description));
        proof {
            assert(texts_of(row@) =~= self@.row());
        }
        row
    }
}

/// Copies a vector of listings.
pub fn copy_listings(listings: &Vec<Listing>) -> (copy: Vec<Listing>)
    ensures
        listing_views(copy@) == listing_views(listings@),
{
    let mut copy: Vec<Listing> = Vec::new();
    let mut i: usize = 0;
    while i < listings.len()
        invariant
            i <= listings.len(),
            copy.len() == i,
            listing_views(copy@) == listing_views(listings@.subrange(0, i as int)),
        decreases listings.len() - i,
    {
        let one = listings[i].clone();
        proof {
            let before = listing_views(listings@.subrange(0, i as int));
            let after = listing_views(listings@.subrange(0, i + 1));
            assert forall|k: int| 0 <= k < after.len() implies listing_views(copy@.push(one))[k]
                == after[k] by {
                if k < i {
                    assert(listing_views(copy@)[k] == before[k]);
                }
            }
            assert(listing_views(copy@.push(one)) =~= after);
        }
        copy.push(one);
        i += 1;
    }
    proof {
        assert(listings@.subrange(0, listings.len() as int) =~= listings@);
    }
    copy
}

} // verus!
