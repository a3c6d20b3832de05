//! The listing extractor: from the markup of a listing index to the
//! listings in it, by ordered catalogs of selectors.

use crate::listing::{join_texts, listing_views, or_empty, text_of, texts_of, Listing, ListingView};
use crate::markup::{
    attribute, document_matches, element_attribute, element_chunks, element_matches,
    parse_document, parsed_document, select_in_document, select_in_element, text_chunks,
};
use crate::text::{
    chars_of, contains, contains_ignoring_case, find_chars, first_occurrence, has_char,
    join_chars_from, joined, lemma_first_occurrence, lowercased, parse_count, parse_count_chars,
    position_of, position_of_char, remove_char, slice_chars, split_words, string_from_chars, trim,
    trimmed, views, without_char, words,
};
use vstd::prelude::*;
use vstd::string::StringExecFns;

verus! {

/// The texts of a sequence of string slices.
pub open spec fn strs_of(values: Seq<&'static str>) -> Seq<Seq<char>> {
    values.map_values(|s: &'static str| s@)
}

/// Selectors of the elements that hold one listing each, by priority.
pub open spec fn container_catalog() -> Seq<Seq<char>> {
    seq![
        "div.su-card-container"@,
        "div.s-item__wrapper"@,
        "li.s-item"@,
        ".str-item-card"@,
        ".item-listing-cell"@,
        "[data-testid='item-card']"@,
        ".str-grid-item"@,
    ]
}

/// Selectors of a listing's title, by priority.
pub open spec fn title_catalog() -> Seq<Seq<char>> {
    seq![
        ".s-card__title .su-styled-text"@,
        "div[role='heading'] .su-styled-text"@,
        "div.s-item__title span[role='heading']"@,
        ".s-item__title span"@,
        ".s-item__title"@,
        "h3"@,
        ".title"@,
        "[role='heading']"@,
    ]
}

/// Selectors of a listing's price, by priority.
pub open spec fn price_catalog() -> Seq<Seq<char>> {
    seq![
        ".s-card__price"@,
        ".su-styled-text.primary.bold"@,
        "span.s-item__price"@,
        ".s-item__detail--primary .s-item__price"@,
        ".price"@,
    ]
}

/// Selectors of a listing's shipping terms, by priority.
pub open spec fn shipping_catalog() -> Seq<Seq<char>> {
    seq![
        ".s-card__attribute-row"@,
        ".su-styled-text"@,
        "span.s-item__shipping"@,
        ".s-item__logisticsCost"@,
    ]
}

/// Selectors of a listing's condition, by priority.
pub open spec fn condition_catalog() -> Seq<Seq<char>> {
    seq![".s-card__subtitle .su-styled-text"@, "span.SECONDARY_INFO"@]
}

/// Selectors of a listing's location, by priority.
pub open spec fn location_catalog() -> Seq<Seq<char>> {
    seq![".su-styled-text"@, ".s-item__location"@]
}

/// Selectors of a listing's seller, by priority.
pub open spec fn seller_catalog() -> Seq<Seq<char>> {
    seq![
        ".su-card-container__attributes__secondary .su-styled-text"@,
        ".s-item__etrs-text .PRIMARY"@,
        ".s-item__seller-info-text"@,
    ]
}

/// Selectors of a listing's number of watchers, by priority.
pub open spec fn watchers_catalog() -> Seq<Seq<char>> {
    seq![".s-item__watchheart-count"@, ".s-item__watchCountTotal"@]
}

/// Selectors of the texts that may say that offers are accepted.
pub open spec fn offer_catalog() -> Seq<Seq<char>> {
    seq![".su-styled-text"@, ".s-item__dynamic"@, ".s-item__formatBestOfferEnabled"@]
}

/// Selectors of the texts that may say that the item can be bought at once.
pub open spec fn purchase_catalog() -> Seq<Seq<char>> {
    seq![
        ".su-styled-text"@,
        ".s-item__purchase-options-with-icon"@,
        ".s-item__purchase-options"@,
        ".s-item__dynamic"@,
    ]
}

/// Selectors of the texts that may say that the listing is new.
pub open spec fn novelty_catalog() -> Seq<Seq<char>> {
    seq![".su-styled-text"@, ".s-item__trending"@, ".s-item__listingDate"@]
}

/// Selectors of the links that may lead to the item's page, by priority.
pub open spec fn link_catalog() -> Seq<Seq<char>> {
    seq!["a"@, ".su-link"@, ".s-item__link"@]
}

/// The part of an address after which the item id stands.
pub open spec fn item_marker() -> Seq<char> {
    "itm/"@
}

/// The address of an item's page up to the item id.
pub open spec fn item_page_prefix() -> Seq<char> {
    "https://www.ebay.com/itm/"@
}

/// The text of an element with the given text nodes: the nodes joined by
/// single spaces.
pub open spec fn chunk_text(chunks: Seq<Seq<char>>) -> Seq<char> {
    joined(chunks, " "@)
}

/// A text that can fill a field: the trimmed text, where that is not empty.
pub open spec fn usable(raw: Seq<char>) -> Option<Seq<char>> {
    let text = trim(raw);
    if text.len() > 0 {
        Some(text)
    } else {
        None
    }
}

/// Whether a text, in lower case, holds the phrase.
pub open spec fn mentions(raw: Seq<char>, phrase: Seq<char>) -> bool {
    contains(lowercased(raw), phrase)
}

/// Whether a text speaks of shipping: it names delivery or shipping, in any
/// letter case, or an amount in dollars.
pub open spec fn is_shipping_text(text: Seq<char>) -> bool {
    mentions(text, "delivery"@) || mentions(text, "shipping"@) || text.contains('$')
}

/// Whether a text speaks of a location.
pub open spec fn is_location_text(text: Seq<char>) -> bool {
    mentions(text, "located"@) || mentions(text, "from"@)
}

/// The field that a resolved text fills where it passes a test.
pub open spec fn only_if(text: Option<Seq<char>>, passes: bool) -> Option<Seq<char>> {
    if passes {
        text
    } else {
        None
    }
}

/// The shipping terms that a resolved text gives.
pub open spec fn shipping_from(text: Option<Seq<char>>) -> Option<Seq<char>> {
    match text {
        Some(t) => only_if(text, is_shipping_text(t)),
        None => None,
    }
}

/// The location that a resolved text gives.
pub open spec fn location_from(text: Option<Seq<char>>) -> Option<Seq<char>> {
    match text {
        Some(t) => only_if(text, is_location_text(t)),
        None => None,
    }
}

/// The seller's name in a seller text: its first word.
pub open spec fn seller_name(text: Seq<char>) -> Option<Seq<char>> {
    let parts = words(text);
    if parts.len() > 0 {
        Some(parts[0])
    } else {
        None
    }
}

/// The seller's feedback in a seller text: the words after the first, joined
/// by single spaces, where they hold a percent sign.
pub open spec fn seller_feedback(text: Seq<char>) -> Option<Seq<char>> {
    let parts = words(text);
    if parts.len() > 0 {
        let rest = joined(parts.subrange(1, parts.len() as int), " "@);
        if rest.contains('%') {
            Some(rest)
        } else {
            None
        }
    } else {
        None
    }
}

/// The number of watchers that a text gives: its first word, commas left
/// out, read as a count.
pub open spec fn watchers_from(text: Seq<char>) -> Option<u32> {
    let parts = words(text);
    if parts.len() > 0 {
        parse_count(without_char(parts[0], ','))
    } else {
        None
    }
}

/// The item id in an address: what stands between the first item marker and
/// the next one, up to the first question mark; `None` where the address
/// holds no item marker.
pub open spec fn href_item_id(href: Seq<char>) -> Option<Seq<char>> {
    let at = first_occurrence(href, item_marker(), 0);
    if at < 0 {
        None
    } else {
        let start = at + item_marker().len();
        let next = first_occurrence(href, item_marker(), start);
        let end = if next < 0 {
            href.len() as int
        } else {
            next
        };
        let segment = href.subrange(start, end);
        Some(segment.subrange(0, position_of(segment, '?', 0)))
    }
}

/// The address of the page of the item with the given id.
pub open spec fn item_url(id: Seq<char>) -> Seq<char> {
    item_page_prefix() + id
}

/// The listings that are kept: those with both a title and a price, in
/// their order.
pub open spec fn kept(candidates: Seq<ListingView>) -> Seq<ListingView>
    decreases candidates.len(),
{
    if candidates.len() == 0 {
        Seq::empty()
    } else if candidates.last().acceptable() {
        kept(candidates.drop_last()).push(candidates.last())
    } else {
        kept(candidates.drop_last())
    }
}

/// The text of an element: its text nodes joined by single spaces.
pub open spec fn element_text(element: scraper::ElementRef<'_>) -> Seq<char> {
    chunk_text(element_chunks(element))
}

/// The text that a selector gives below an element: the usable text of the
/// first element that matches.
pub open spec fn selector_text(element: scraper::ElementRef<'_>, selector: Seq<char>) -> Option<
    Seq<char>,
> {
    let found = element_matches(element, selector);
    if found.len() > 0 {
        usable(element_text(found[0]))
    } else {
        None
    }
}

/// The text that the selectors of a catalog from position `from` on give
/// below an element: that of the first selector that gives one.
pub open spec fn catalog_text_from(
    element: scraper::ElementRef<'_>,
    catalog: Seq<Seq<char>>,
    from: int,
) -> Option<Seq<char>>
    decreases catalog.len() - from,
{
    if from < 0 || from >= catalog.len() {
        None
    } else {
        match selector_text(element, catalog[from]) {
            Some(text) => Some(text),
            None => catalog_text_from(element, catalog, from + 1),
        }
    }
}

/// The text that a catalog gives below an element.
pub open spec fn catalog_text(element: scraper::ElementRef<'_>, catalog: Seq<Seq<char>>) -> Option<
    Seq<char>,
> {
    catalog_text_from(element, catalog, 0)
}

/// Whether the text of one of the elements mentions the phrase.
pub open spec fn any_mentions(elements: Seq<scraper::ElementRef<'_>>, phrase: Seq<char>) -> bool {
    exists|i: int| 0 <= i < elements.len() && mentions(element_text(#[trigger] elements[i]), phrase)
}

/// Whether, below an element, an element that matches one of the selectors
/// of a catalog mentions the phrase.
pub open spec fn catalog_mentions(
    element: scraper::ElementRef<'_>,
    catalog: Seq<Seq<char>>,
    phrase: Seq<char>,
) -> bool {
    exists|k: int|
        0 <= k < catalog.len() && any_mentions(
            element_matches(element, #[trigger] catalog[k]),
            phrase,
        )
}

/// The item id that a link selector gives below an element: that in the
/// address of the first link that matches.
pub open spec fn link_item_id(element: scraper::ElementRef<'_>, selector: Seq<char>) -> Option<
    Seq<char>,
> {
    let found = element_matches(element, selector);
    if found.len() > 0 {
        match element_attribute(found[0], "href"@) {
            Some(href) => href_item_id(href),
            None => None,
        }
    } else {
        None
    }
}

/// The item id that the link selectors from position `from` on give below
/// an element: that of the first selector that gives one.
pub open spec fn item_id_from(
    element: scraper::ElementRef<'_>,
    catalog: Seq<Seq<char>>,
    from: int,
) -> Option<Seq<char>>
    decreases catalog.len() - from,
{
    if from < 0 || from >= catalog.len() {
        None
    } else {
        match link_item_id(element, catalog[from]) {
            Some(id) => Some(id),
            None => item_id_from(element, catalog, from + 1),
        }
    }
}

/// The candidate listing that an element gives, each field resolved on its
/// own.
pub open spec fn listing_of(element: scraper::ElementRef<'_>) -> ListingView {
    let seller = catalog_text(element, seller_catalog());
    let item_id = item_id_from(element, link_catalog(), 0);
    ListingView {
        title: or_empty(catalog_text(element, title_catalog())),
        price: or_empty(catalog_text(element, price_catalog())),
        shipping: shipping_from(catalog_text(element, shipping_catalog())),
        condition: catalog_text(element, condition_catalog()),
        watchers: match catalog_text(element, watchers_catalog()) {
            Some(text) => watchers_from(text),
            None => None,
        },
        seller: match seller {
            Some(text) => seller_name(text),
            None => None,
        },
        seller_feedback: match seller {
            Some(text) => seller_feedback(text),
            None => None,
        },
        buy_it_now: catalog_mentions(element, purchase_catalog(), "buy it now"@),
        accepts_offers: catalog_mentions(element, offer_catalog(), "best offer"@),
        location: location_from(catalog_text(element, location_catalog())),
        quantity_available: None,
        is_new_listing: catalog_mentions(element, novelty_catalog(), "new listing"@),
        item_id: item_id,
        url: match item_id {
            Some(id) => Some(item_url(id)),
            None => None,
        },
        notes: Seq::empty(),
        item_specifics: Seq::empty(),
        description: None,
    }
}

/// The elements that hold the listings of a document: those that match the
/// first selector, from position `from` of the catalog on, that matches any.
pub open spec fn containers_from(doc: &scraper::Html, catalog: Seq<Seq<char>>, from: int) -> Seq<
    scraper::ElementRef<'_>,
>
    decreases catalog.len() - from,
{
    if from < 0 || from >= catalog.len() {
        Seq::empty()
    } else if document_matches(doc, catalog[from]).len() > 0 {
        document_matches(doc, catalog[from])
    } else {
        containers_from(doc, catalog, from + 1)
    }
}

/// The candidate listings of a sequence of elements, in order.
pub open spec fn candidates_of(elements: Seq<scraper::ElementRef<'_>>) -> Seq<ListingView> {
    elements.map_values(|element: scraper::ElementRef<'_>| listing_of(element))
}

/// The listings of a document: the candidates that its listing elements
/// give, less those without a title or a price.
pub open spec fn listings_in(doc: &scraper::Html) -> Seq<ListingView> {
    kept(candidates_of(containers_from(doc, container_catalog(), 0)))
}

/// The listings in a markup text.
pub open spec fn listings_of_markup(markup: Seq<char>) -> Seq<ListingView> {
    listings_in(&parsed_document(markup))
}

/// The trimmed text of an element's text nodes, where it is not empty.
pub fn usable_text(chunks: &Vec<String>) -> (text: Option<String>)
    ensures
        text_of(text) == usable(chunk_text(texts_of(chunks@))),
{
    let raw = join_texts(chunks, " ");
    let text = trimmed(raw.as_str());
    if text.as_str().is_empty() {
        None
    } else {
        Some(text)
    }
}

/// Whether the text of an element's text nodes, in lower case, holds the
/// phrase.
pub fn chunks_mention(chunks: &Vec<String>, phrase: &str) -> (found: bool)
    ensures
        found == mentions(chunk_text(texts_of(chunks@)), phrase@),
{
    let raw = join_texts(chunks, " ");
    contains_ignoring_case(raw.as_str(), phrase)
}

/// Keeps a resolved text as shipping terms where it speaks of shipping.
pub fn shipping_field(text: Option<String>) -> (field: Option<String>)
    ensures
        text_of(field) == shipping_from(text_of(text)),
{
    match text {
        Some(t) => {
            if contains_ignoring_case(t.as_str(), "delivery") || contains_ignoring_case(
                t.as_str(),
                "shipping",
            ) || has_char(t.as_str(), '$') {
                Some(t)
            } else {
                None
            }
        },
        None => None,
    }
}

/// Keeps a resolved text as location where it speaks of a location.
pub fn location_field(text: Option<String>) -> (field: Option<String>)
    ensures
        text_of(field) == location_from(text_of(text)),
{
    match text {
        Some(t) => {
            if contains_ignoring_case(t.as_str(), "located") || contains_ignoring_case(
                t.as_str(),
                "from",
            ) {
                Some(t)
            } else {
                None
            }
        },
        None => None,
    }
}

/// Splits a seller text into the seller's name and feedback.
pub fn seller_fields(text: &str) -> (fields: (Option<String>, Option<String>))
    ensures
        text_of(fields.0) == seller_name(text@),
        text_of(fields.1) == seller_feedback(text@),
{
    let chars = chars_of(text);
    let parts = split_words(&chars);
    if parts.len() == 0 {
        return (None, None);
    }
    let name = string_from_chars(&parts[0]);
    let space = chars_of(" ");
    let rest = join_chars_from(&parts, 1, &space);
    let feedback = string_from_chars(&rest);
    proof {
        assert(views(parts@)[0] == parts@[0]@);
    }
    if has_char(feedback.as_str(), '%') {
        (Some(name), Some(feedback))
    } else {
        (Some(name), None)
    }
}

/// Reads the number of watchers from a text.
pub fn watchers_field(text: &str) -> (count: Option<u32>)
    ensures
        count == watchers_from(text@),
{
    let chars = chars_of(text);
    let parts = split_words(&chars);
    if parts.len() == 0 {
        return None;
    }
    proof {
        assert(views(parts@)[0] == parts@[0]@);
    }
    let digits = remove_char(&parts[0], ',');
    parse_count_chars(&digits)
}

/// Takes the item id out of an address.
pub fn item_id_from_href(href: &str) -> (id: Option<String>)
    ensures
        text_of(id) == href_item_id(href@),
{
    let chars = chars_of(href);
    let marker = chars_of("itm/");
    proof {
        lemma_first_occurrence(chars@, marker@, 0);
    }
    match find_chars(&chars, &marker, 0) {
        None => None,
        Some(at) => {
            let start = at + marker.len();
            proof {
                lemma_first_occurrence(chars@, marker@, start as int);
            }
            let end = match find_chars(&chars, &marker, start) {
                Some(next) => next,
                None => chars.len(),
            };
            let segment = slice_chars(&chars, start, end);
            let stop = position_of_char(&segment, '?', 0);
            let id = slice_chars(&segment, 0, stop);
            Some(string_from_chars(&id))
        },
    }
}

/// The address of the page of the item with the given id.
pub fn item_url_for(id: &str) -> (url: String)
    ensures
        url@ == item_url(id@),
{
    String::from_str("https://www.ebay.com/itm/").concat(id)
}

/// Keeps the listings that have both a title and a price.
pub fn keep_acceptable(candidates: Vec<Listing>) -> (listings: Vec<Listing>)
    ensures
        listing_views(listings@) == kept(listing_views(candidates@)),
{
    let ghost all = listing_views(candidates@);
    let ghost total = candidates.len();
    let mut listings: Vec<Listing> = Vec::new();
    proof {
        assert(listing_views(listings@) =~= Seq::empty());
        assert(all.subrange(0, 0) =~= Seq::empty());
    }
    for candidate in it: candidates
        invariant
            it.seq().len() == total,
            all == listing_views(it.seq()),
            listing_views(listings@) == kept(all.subrange(0, it.index() as int)),
    {
        proof {
            let upto = all.subrange(0, it.index() + 1);
            assert(upto.drop_last() =~= all.subrange(0, it.index() as int));
            assert(upto.last() == candidate@);
        }
        if candidate.is_acceptable() {
            proof {
                assert(listing_views(listings@.push(candidate)) =~= listing_views(
                    listings@,
                ).push(candidate@));
            }
            listings.push(candidate);
        }
    }
    proof {
        assert(all.subrange(0, total as int) =~= all);
    }
    listings
}

/// Builds the catalog of container selectors.
pub fn container_selectors() -> (catalog: Vec<&'static str>)
    ensures
        strs_of(catalog@) == container_catalog(),
{
    let catalog: Vec<&'static str> = vec![
        "div.su-card-container",
        "div.s-item__wrapper",
        "li.s-item",
        ".str-item-card",
        ".item-listing-cell",
        "[data-testid='item-card']",
        ".str-grid-item",
    ];
    proof {
        assert(strs_of(catalog@) =~= container_catalog());
    }
    catalog
}

/// Builds the catalog of title selectors.
pub fn title_selectors() -> (catalog: Vec<&'static str>)
    ensures
        strs_of(catalog@) == title_catalog(),
{
    let catalog: Vec<&'static str> = vec![
        ".s-card__title .su-styled-text",
        "div[role='heading'] .su-styled-text",
        "div.s-item__title span[role='heading']",
        ".s-item__title span",
        ".s-item__title",
        "h3",
        ".title",
        "[role='heading']",
    ];
    proof {
        assert(strs_of(catalog@) =~= title_catalog());
    }
    catalog
}

/// Builds the catalog of price selectors.
pub fn price_selectors() -> (catalog: Vec<&'static str>)
    ensures
        strs_of(catalog@) == price_catalog(),
{
    let catalog: Vec<&'static str> = vec![
        ".s-card__price",
        ".su-styled-text.primary.bold",
        "span.s-item__price",
        ".s-item__detail--primary .s-item__price",
        ".price",
    ];
    proof {
        assert(strs_of(catalog@) =~= price_catalog());
    }
    catalog
}

/// Builds the catalog of shipping selectors.
pub fn shipping_selectors() -> (catalog: Vec<&'static str>)
    ensures
        strs_of(catalog@) == shipping_catalog(),
{
    let catalog: Vec<&'static str> = vec![
        ".s-card__attribute-row",
        ".su-styled-text",
        "span.s-item__shipping",
        ".s-item__logisticsCost",
    ];
    proof {
        assert(strs_of(catalog@) =~= shipping_catalog());
    }
    catalog
}

/// Builds the catalog of condition selectors.
pub fn condition_selectors() -> (catalog: Vec<&'static str>)
    ensures
        strs_of(catalog@) == condition_catalog(),
{
    let catalog: Vec<&'static str> = vec![
        ".s-card__subtitle .su-styled-text",
        "span.SECONDARY_INFO",
    ];
    proof {
        assert(strs_of(catalog@) =~= condition_catalog());
    }
    catalog
}

/// Builds the catalog of location selectors.
pub fn location_selectors() -> (catalog: Vec<&'static str>)
    ensures
        strs_of(catalog@) == location_catalog(),
{
    let catalog: Vec<&'static str> = vec![
        ".su-styled-text",
        ".s-item__location",
    ];
    proof {
        assert(strs_of(catalog@) =~= location_catalog());
    }
    catalog
}

/// Builds the catalog of seller selectors.
pub fn seller_selectors() -> (catalog: Vec<&'static str>)
    ensures
        strs_of(catalog@) == seller_catalog(),
{
    let catalog: Vec<&'static str> = vec![
        ".su-card-container__attributes__secondary .su-styled-text",
        ".s-item__etrs-text .PRIMARY",
        ".s-item__seller-info-text",
    ];
    proof {
        assert(strs_of(catalog@) =~= seller_catalog());
    }
    catalog
}

/// Builds the catalog of watchers selectors.
pub fn watchers_selectors() -> (catalog: Vec<&'static str>)
    ensures
        strs_of(catalog@) == watchers_catalog(),
{
    let catalog: Vec<&'static str> = vec![
        ".s-item__watchheart-count",
        ".s-item__watchCountTotal",
    ];
    proof {
        assert(strs_of(catalog@) =~= watchers_catalog());
    }
    catalog
}

/// Builds the catalog of offer selectors.
pub fn offer_selectors() -> (catalog: Vec<&'static str>)
    ensures
        strs_of(catalog@) == offer_catalog(),
{
    let catalog: Vec<&'static str> = vec![
        ".su-styled-text",
        ".s-item__dynamic",
        ".s-item__formatBestOfferEnabled",
    ];
    proof {
        assert(strs_of(catalog@) =~= offer_catalog());
    }
    catalog
}

/// Builds the catalog of purchase selectors.
pub fn purchase_selectors() -> (catalog: Vec<&'static str>)
    ensures
        strs_of(catalog@) == purchase_catalog(),
{
    let catalog: Vec<&'static str> = vec![
        ".su-styled-text",
        ".s-item__purchase-options-with-icon",
        ".s-item__purchase-options",
        ".s-item__dynamic",
    ];
    proof {
        assert(strs_of(catalog@) =~= purchase_catalog());
    }
    catalog
}

/// Builds the catalog of novelty selectors.
pub fn novelty_selectors() -> (catalog: Vec<&'static str>)
    ensures
        strs_of(catalog@) == novelty_catalog(),
{
    let catalog: Vec<&'static str> = vec![
        ".su-styled-text",
        ".s-item__trending",
        ".s-item__listingDate",
    ];
    proof {
        assert(strs_of(catalog@) =~= novelty_catalog());
    }
    catalog
}

/// Builds the catalog of link selectors.
pub fn link_selectors() -> (catalog: Vec<&'static str>)
    ensures
        strs_of(catalog@) == link_catalog(),
{
    let catalog: Vec<&'static str> = vec![
        "a",
        ".su-link",
        ".s-item__link",
    ];
    proof {
        assert(strs_of(catalog@) =~= link_catalog());
    }
    catalog
}

fn text_for_selector(element: &scraper::ElementRef<'_>, selector: &str) -> (text: Option<String>)
    ensures
        text_of(text) == selector_text(*element, selector@),
{
    let found = select_in_element(element, selector);
    if found.len() > 0 {
        let chunks = text_chunks(&found[0]);
        usable_text(&chunks)
    } else {
        None
    }
}

fn text_for_catalog(element: &scraper::ElementRef<'_>, catalog: &Vec<&'static str>) -> (text:
    Option<String>)
    ensures
        text_of(text) == catalog_text(*element, strs_of(catalog@)),
{
    let ghost names = strs_of(catalog@);
    let mut i: usize = 0;
    while i < catalog.len()
        invariant
            i <= catalog.len(),
            names == strs_of(catalog@),
            catalog_text(*element, names) == catalog_text_from(*element, names, i as int),
        decreases catalog.len() - i,
    {
        proof {
            assert(names[i as int] == catalog@[i as int]@);
        }
        let text = text_for_selector(element, catalog[i]);
        if text.is_some() {
            return text;
        }
        i += 1;
    }
    None
}

fn elements_mention(elements: &Vec<scraper::ElementRef<'_>>, phrase: &str) -> (found: bool)
    ensures
        found == any_mentions(elements@, phrase@),
{
    let mut i: usize = 0;
    while i < elements.len()
        invariant
            i <= elements.len(),
            forall|j: int|
                0 <= j < i ==> !mentions(element_text(#[trigger] elements@[j]), phrase@),
        decreases elements.len() - i,
    {
        let chunks = text_chunks(&elements[i]);
        if chunks_mention(&chunks, phrase) {
            return true;
        }
        i += 1;
    }
    false
}

fn catalog_mentions_phrase(
    element: &scraper::ElementRef<'_>,
    catalog: &Vec<&'static str>,
    phrase: &str,
) -> (found: bool)
    ensures
        found == catalog_mentions(*element, strs_of(catalog@), phrase@),
{
    let ghost names = strs_of(catalog@);
    let mut k: usize = 0;
    while k < catalog.len()
        invariant
            k <= catalog.len(),
            names == strs_of(catalog@),
            forall|j: int|
                0 <= j < k ==> !any_mentions(
                    element_matches(*element, #[trigger] names[j]),
                    phrase@,
                ),
        decreases catalog.len() - k,
    {
        proof {
            assert(names[k as int] == catalog@[k as int]@);
        }
        let found = select_in_element(element, catalog[k]);
        if elements_mention(&found, phrase) {
            return true;
        }
        k += 1;
    }
    false
}

fn item_id_for_selector(element: &scraper::ElementRef<'_>, selector: &str) -> (id: Option<String>)
    ensures
        text_of(id) == link_item_id(*element, selector@),
{
    let found = select_in_element(element, selector);
    if found.len() > 0 {
        match attribute(&found[0], "href") {
            Some(href) => item_id_from_href(href.as_str()),
            None => None,
        }
    } else {
        None
    }
}

fn item_id_in(element: &scraper::ElementRef<'_>, catalog: &Vec<&'static str>) -> (id: Option<
    String,
>)
    ensures
        text_of(id) == item_id_from(*element, strs_of(catalog@), 0),
{
    let ghost names = strs_of(catalog@);
    let mut i: usize = 0;
    while i < catalog.len()
        invariant
            i <= catalog.len(),
            names == strs_of(catalog@),
            item_id_from(*element, names, 0) == item_id_from(*element, names, i as int),
        decreases catalog.len() - i,
    {
        proof {
            assert(names[i as int] == catalog@[i as int]@);
        }
        let id = item_id_for_selector(element, catalog[i]);
        if id.is_some() {
            return id;
        }
        i += 1;
    }
    None
}

fn listing_from(element: &scraper::ElementRef<'_>) -> (listing: Listing)
    ensures
        listing@ == listing_of(*element),
{
    let title = text_for_catalog(element, &title_selectors());
    let price = text_for_catalog(element, &price_selectors());
    let shipping = shipping_field(text_for_catalog(element, &shipping_selectors()));
    let condition = text_for_catalog(element, &condition_selectors());
    let watchers = match text_for_catalog(element, &watchers_selectors()) {
        Some(text) => watchers_field(text.as_str()),
        None => None,
    };
    let (seller, seller_feedback) = match text_for_catalog(element, &seller_selectors()) {
        Some(text) => seller_fields(text.as_str()),
        None => (None, None),
    };
    let buy_it_now = catalog_mentions_phrase(element, &purchase_selectors(), "buy it now");
    let accepts_offers = catalog_mentions_phrase(element, &offer_selectors(), "best offer");
    let location = location_field(text_for_catalog(element, &location_selectors()));
    let is_new_listing = catalog_mentions_phrase(element, &novelty_selectors(), "new listing");
    let item_id = item_id_in(element, &link_selectors());
    let url = match &item_id {
        Some(id) => Some(item_url_for(id.as_str())),
        None => None,
    };
    let listing = Listing {
        title: match title {
            Some(text) => text,
            None => String::new(),
        },
        price: match price {
            Some(text) => text,
            None => String::new(),
        },
        shipping,
        condition,
        watchers,
        seller,
        seller_feedback,
        buy_it_now,
        accepts_offers,
        location,
        quantity_available: None,
        is_new_listing,
        item_id,
        url,
        notes: Vec::new(),
        item_specifics: Vec::new(),
        description: None,
    };
    proof {
        assert(listing@.notes =~= Seq::empty());
        assert(listing@.item_specifics =~= Seq::empty());
    }
    listing
}

fn containers<'a>(doc: &'a scraper::Html, catalog: &Vec<&'static str>) -> (elements: Vec<
    scraper::ElementRef<'a>,
>)
    ensures
        elements@ == containers_from(doc, strs_of(catalog@), 0),
{
    let ghost names = strs_of(catalog@);
    let mut i: usize = 0;
    while i < catalog.len()
        invariant
            i <= catalog.len(),
            names == strs_of(catalog@),
            containers_from(doc, names, 0) == containers_from(doc, names, i as int),
        decreases catalog.len() - i,
    {
        proof {
            assert(names[i as int] == catalog@[i as int]@);
        }
        let found = select_in_document(doc, catalog[i]);
        if found.len() > 0 {
            return found;
        }
        i += 1;
    }
    let none: Vec<scraper::ElementRef<'a>> = Vec::new();
    proof {
        assert(none@ =~= Seq::empty());
    }
    none
}

/// Extracts the listings from the markup of a listing index: the elements
/// of the first container selector that matches any give one candidate
/// each, in the order in which the document yields them, and a candidate is
/// kept exactly when it has both a title and a price.
pub fn scrape_listings_from_html(html_content: &str) -> (listings: Vec<Listing>)
    ensures
        listing_views(listings@) == listings_of_markup(html_content@),
{
    let doc = parse_document(html_content);
    let elements = containers(&doc, &container_selectors());
    let ghost wanted = candidates_of(elements@);
    let mut candidates: Vec<Listing> = Vec::new();
    proof {
        assert(listing_views(candidates@) =~= wanted.subrange(0, 0));
    }
    let mut i: usize = 0;
    while i < elements.len()
        invariant
            i <= elements.len(),
            wanted == candidates_of(elements@),
            candidates.len() == i,
            listing_views(candidates@) == wanted.subrange(0, i as int),
        decreases elements.len() - i,
    {
        let candidate = listing_from(&elements[i]);
        proof {
            assert(listing_views(candidates@.push(candidate)) =~= wanted.subrange(0, i + 1)) by {
                let before = listing_views(candidates@);
                let after = listing_views(candidates@.push(candidate));
                assert forall|k: int| 0 <= k < after.len() implies after[k] == wanted[k] by {
                    if k < i {
                        assert(before[k] == wanted.subrange(0, i as int)[k]);
                    }
                }
            }
        }
        candidates.push(candidate);
        i += 1;
    }
    proof {
        assert(wanted.subrange(0, elements.len() as int) =~= wanted);
    }
    keep_acceptable(candidates)
}

/// A listing is kept exactly when it is among the candidates and has both a
/// title and a price; all others are dropped.
pub proof fn law_kept_iff_acceptable(candidates: Seq<ListingView>, listing: ListingView)
    ensures
        kept(candidates).contains(listing) <==> candidates.contains(listing)
            && listing.acceptable(),
    decreases candidates.len(),
{
    if candidates.len() == 0 {
    } else {
        let before = candidates.drop_last();
        let last = candidates.last();
        law_kept_iff_acceptable(before, listing);
        if candidates.contains(listing) {
            let i = choose|i: int| 0 <= i < candidates.len() && candidates[i] == listing;
            if i < before.len() {
                assert(before[i] == listing);
            }
        }
        if before.contains(listing) {
            let i = choose|i: int| 0 <= i < before.len() && before[i] == listing;
            assert(candidates[i] == listing);
        }
        if last.acceptable() {
            let now = kept(before).push(last);
            if kept(before).contains(listing) {
                let i = choose|i: int| 0 <= i < kept(before).len() && kept(before)[i] == listing;
                assert(now[i] == listing);
            }
            if listing == last {
                assert(now[now.len() - 1] == listing);
                assert(candidates[candidates.len() - 1] == listing);
            }
            if now.contains(listing) {
                let i = choose|i: int| 0 <= i < now.len() && now[i] == listing;
                if i < kept(before).len() {
                    assert(kept(before)[i] == listing);
                }
            }
        } else {
            if candidates.contains(listing) && listing.acceptable() {
                assert(listing != last);
            }
        }
    }
}

/// Where the selectors before position `n` of a catalog give no usable text
/// below an element and the selector at `n` gives one, the catalog gives the
/// text of the selector at `n`.
pub proof fn law_fallback_by_priority(
    element: scraper::ElementRef<'_>,
    catalog: Seq<Seq<char>>,
    n: int,
)
    requires
        0 <= n < catalog.len(),
        forall|i: int| 0 <= i < n ==> selector_text(element, #[trigger] catalog[i]) is None,
        selector_text(element, catalog[n]) is Some,
    ensures
        catalog_text(element, catalog) == selector_text(element, catalog[n]),
{
    lemma_fallback_from(element, catalog, n, 0);
}

proof fn lemma_fallback_from(
    element: scraper::ElementRef<'_>,
    catalog: Seq<Seq<char>>,
    n: int,
    from: int,
)
    requires
        0 <= from <= n < catalog.len(),
        forall|i: int| 0 <= i < n ==> selector_text(element, #[trigger] catalog[i]) is None,
        selector_text(element, catalog[n]) is Some,
    ensures
        catalog_text_from(element, catalog, from) == selector_text(element, catalog[n]),
    decreases n - from,
{
    if from < n {
        lemma_fallback_from(element, catalog, n, from + 1);
    }
}

/// Where no selector of a catalog gives a usable text below an element, the
/// catalog gives none.
pub proof fn law_no_match_no_text(element: scraper::ElementRef<'_>, catalog: Seq<Seq<char>>)
    requires
        forall|i: int|
            0 <= i < catalog.len() ==> selector_text(element, #[trigger] catalog[i]) is None,
    ensures
        catalog_text(element, catalog) is None,
{
    lemma_no_match_from(element, catalog, 0);
}

proof fn lemma_no_match_from(element: scraper::ElementRef<'_>, catalog: Seq<Seq<char>>, from: int)
    requires
        0 <= from,
        forall|i: int|
            0 <= i < catalog.len() ==> selector_text(element, #[trigger] catalog[i]) is None,
    ensures
        catalog_text_from(element, catalog, from) is None,
    decreases catalog.len() - from,
{
    if from < catalog.len() {
        lemma_no_match_from(element, catalog, from + 1);
    }
}

} // verus!
