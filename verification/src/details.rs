//! What the page of an item adds to its listing.

use crate::app::App;
use crate::listing::{listing_views, or_empty, text_of, texts_of, Listing, ListingView};
use crate::extract::{item_url, item_url_for};
use crate::text::{trim, trimmed};
use vstd::prelude::*;
use vstd::string::StringExecFns;

verus! {

/// The entry of the item specifics for a label: the label, a colon and the
/// trimmed value; none where the page gave no value.
pub open spec fn specific(label: Seq<char>, value: Option<Seq<char>>) -> Seq<Seq<char>> {
    match value {
        Some(text) => seq![label + ": "@ + trim(text)],
        None => Seq::empty(),
    }
}

/// The item specifics that a page gives, in their fixed order.
pub open spec fn specifics_of(
    condition: Option<Seq<char>>,
    brand: Option<Seq<char>>,
    model: Option<Seq<char>>,
    color: Option<Seq<char>>,
) -> Seq<Seq<char>> {
    specific("Condition"@, condition) + specific("Brand"@, brand) + specific("Model"@, model)
        + specific("Color"@, color)
}

/// The address of the description frame, where the frame was found: the
/// outer option says whether it was, the inner one whether it has an
/// address.
pub open spec fn frame_of(frame: Option<Option<String>>) -> Option<Option<Seq<char>>> {
    match frame {
        Some(source) => Some(text_of(source)),
        None => None,
    }
}

/// The description that a page gives: a note of the description frame's
/// address, where the page has such a frame.
pub open spec fn description_of(frame: Option<Option<Seq<char>>>) -> Option<Seq<char>> {
    match frame {
        Some(source) => Some("Description iframe: "@ + or_empty(source)),
        None => None,
    }
}

/// The listing with the details of its page filled in; a page that could
/// not be read leaves the listing as it was.
pub open spec fn enriched(
    listing: ListingView,
    details: Option<(Seq<Seq<char>>, Option<Seq<char>>)>,
) -> ListingView {
    match details {
        Some((specifics, description)) => ListingView {
            item_specifics: specifics,
            description: description,
            ..listing
        },
        None => listing,
    }
}

/// What the details of a page hold.
pub open spec fn details_of(details: Option<(Vec<String>, Option<String>)>) -> Option<
    (Seq<Seq<char>>, Option<Seq<char>>),
> {
    match details {
        Some((specifics, description)) => Some((texts_of(specifics@), text_of(description))),
        None => None,
    }
}

/// The address of the page of a listing: that of its item id, where it has
/// one.
pub open spec fn page_of(listing: ListingView) -> Option<Seq<char>> {
    match listing.item_id {
        Some(id) => Some(item_url(id)),
        None => None,
    }
}

fn push_specific(entries: &mut Vec<String>, label: &str, value: Option<String>)
    ensures
        texts_of(final(entries)@) == texts_of(old(entries)@) + specific(label@, text_of(value)),
{
    match value {
        Some(text) => {
            let bare = trimmed(text.as_str());
            let entry = String::from_str(label).concat(": ").concat(bare.as_str());
            proof {
                assert(texts_of(entries@.push(entry)) =~= texts_of(entries@) + specific(
                    label@,
                    text_of(value),
                ));
            }
            entries.push(entry);
        },
        None => {
            proof {
                assert(texts_of(entries@) + specific(label@, text_of(value)) =~= texts_of(
                    entries@,
                ));
            }
        },
    }
}

/// The address of the page of a listing, where it has an item id.
pub fn page_address(listing: &Listing) -> (url: Option<String>)
    ensures
        text_of(url) == page_of(listing@),
{
    match &listing.item_id {
        Some(id) => Some(item_url_for(id.as_str())),
        None => None,
    }
}

impl App {
    /// The details that the page of an item gives: its item specifics from the
    /// values read for the four labels, and its description from the
    /// description frame.
    pub fn scrape_item_details(
        condition: Option<String>,
        brand: Option<String>,
        model: Option<String>,
        color: Option<String>,
        frame: Option<Option<String>>,
    ) -> (details: (Vec<String>, Option<String>))
        ensures
            texts_of(details.0@) == specifics_of(
                text_of(condition),
                text_of(brand),
                text_of(model),
                text_of(color),
            ),
            text_of(details.1) == description_of(frame_of(frame)),
    {
        let mut entries: Vec<String> = Vec::new();
        proof {
            assert(texts_of(entries@) =~= Seq::empty());
        }
        push_specific(&mut entries, "Condition", condition);
        push_specific(&mut entries, "Brand", brand);
        push_specific(&mut entries, "Model", model);
        push_specific(&mut entries, "Color", color);
        proof {
            assert(texts_of(entries@) =~= specifics_of(
                text_of(condition),
                text_of(brand),
                text_of(model),
                text_of(color),
            ));
        }
        let description = match frame {
            Some(source) => {
                let address = match source {
                    Some(text) => text,
                    None => String::new(),
                };
                Some(String::from_str("Description iframe: ").concat(address.as_str()))
            },
            None => None,
        };
        (entries, description)
    }

    /// Fills the details of its page into the listing at `index`; where the
    /// page could not be read, `details` is `None` and the listing stays as it
    /// was. All other listings stay as they were.
    pub fn scrape_listings_with_details(
        listings: &mut Vec<Listing>,
        index: usize,
        details: Option<(Vec<String>, Option<String>)>,
    )
        requires
            index < old(listings).len(),
        ensures
            listing_views(final(listings)@) == listing_views(old(listings)@).update(
                index as int,
                enriched(old(listings)@[index as int]@, details_of(details)),
            ),
    {
        match details {
            Some((specifics, description)) => {
                let mut listing = listings[index].clone();
                listing.item_specifics = specifics;
                listing.description = description;
                proof {
                    let before = old(listings)@[index as int]@;
                    assert(listing@ == enriched(before, details_of(details)));
                    assert(listing_views(listings@.update(index as int, listing)) =~= listing_views(
                        listings@,
                    ).update(index as int, listing@));
                }
                listings.set(index, listing);
            },
            None => {
                proof {
                    assert(listing_views(listings@).update(
                        index as int,
                        listings@[index as int]@,
                    ) =~= listing_views(listings@));
                }
            },
        }
    }
}

/// A labelled value of an item page.
#[derive(Debug, Clone, Copy, PartialEq, Eq, Structural)]
pub enum Detail {
    Condition,
    Brand,
    Model,
    Color,
}

/// The selector of the element that holds a labelled value of an item page.
pub open spec fn detail_locator(detail: Detail) -> Seq<char> {
    match detail {
        Detail::Condition =>
            "dl.ux-labels-values--condition .ux-labels-values__values span.ux-textspans"@,
        Detail::Brand => "dl.ux-labels-values--brand .ux-labels-values__values span.ux-textspans"@,
        Detail::Model => "dl.ux-labels-values--model .ux-labels-values__values span.ux-textspans"@,
        Detail::Color => "dl.ux-labels-values--color .ux-labels-values__values span.ux-textspans"@,
    }
}

/// The selector of the element that holds a labelled value of an item page.
pub fn detail_selector(detail: Detail) -> (selector: &'static str)
    ensures
        selector@ == detail_locator(detail),
{
    match detail {
        Detail::Condition =>
            "dl.ux-labels-values--condition .ux-labels-values__values span.ux-textspans",
        Detail::Brand => "dl.ux-labels-values--brand .ux-labels-values__values span.ux-textspans",
        Detail::Model => "dl.ux-labels-values--model .ux-labels-values__values span.ux-textspans",
        Detail::Color => "dl.ux-labels-values--color .ux-labels-values__values span.ux-textspans",
    }
}

/// The selector of the description frame of an item page.
pub fn description_frame_selector() -> (selector: &'static str)
    ensures
        selector@ == "#desc_ifr"@,
{
    "#desc_ifr"
}

} // verus!
