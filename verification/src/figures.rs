//! What the results of the shell's work mean for the run: the figures of
//! the seller's page, and what a failed action leads to.

use crate::app::App;
use crate::event::{Action, ActionView, AppEvent, AppEventView, Figure, PROGRESS_DONE};
use crate::monitor::event_of;
use crate::text::{
    chars_of, parse_count, parse_count_chars, remove_char, split_words, views, without_char, words,
};
use vstd::prelude::*;
use vstd::string::StringExecFns;

verus! {

/// What reading the text of one element of a page gave.
#[derive(Debug, Clone, PartialEq)]
pub enum Reading {
    /// The element's text.
    Text(String),
    /// The element did not show up in time.
    Absent,
    /// The element was there and its text could not be read.
    Failed(String),
}

/// What a `Reading` holds, as mathematical values.
pub enum ReadingView {
    Text(Seq<char>),
    Absent,
    Failed(Seq<char>),
}

impl View for Reading {
    type V = ReadingView;

    open spec fn view(&self) -> ReadingView {
        match *self {
            Reading::Text(text) => ReadingView::Text(text@),
            Reading::Absent => ReadingView::Absent,
            Reading::Failed(message) => ReadingView::Failed(message@),
        }
    }
}

/// A count, or 0 where there is none.
pub open spec fn or_zero(count: Option<u32>) -> u32 {
    match count {
        Some(n) => n,
        None => 0,
    }
}

/// The number of items sold that a text gives: the text without commas,
/// read as a count, or 0 where it is none.
pub open spec fn items_sold_in(text: Seq<char>) -> u32 {
    or_zero(parse_count(without_char(text, ',')))
}

/// The number of followers that a text gives: its first word without
/// commas, read as a count, or 0 where it is none.
pub open spec fn followers_in(text: Seq<char>) -> u32 {
    let parts = words(text);
    if parts.len() > 0 {
        or_zero(parse_count(without_char(parts[0], ',')))
    } else {
        0
    }
}

/// The count that a reading gives: that in its text, 0 where the element
/// was absent, and the failure where the text could not be read.
pub open spec fn count_reading(reading: ReadingView, in_text: spec_fn(Seq<char>) -> u32) -> Result<
    u32,
    Seq<char>,
> {
    match reading {
        ReadingView::Text(text) => Ok(in_text(text)),
        ReadingView::Absent => Ok(0),
        ReadingView::Failed(message) => Err(message),
    }
}

/// The feedback that a reading gives: its text, the empty text where the
/// element was absent, and the failure where the text could not be read.
pub open spec fn feedback_reading(reading: ReadingView) -> Result<Seq<char>, Seq<char>> {
    match reading {
        ReadingView::Text(text) => Ok(text),
        ReadingView::Absent => Ok(Seq::empty()),
        ReadingView::Failed(message) => Err(message),
    }
}

/// The event that the reading of a figure leads to, if any: a figure that
/// could not be read stays unknown.
pub open spec fn figure_signal(figure: Figure, reading: ReadingView) -> Option<AppEventView> {
    match figure {
        Figure::ItemsSold => match count_reading(reading, |t: Seq<char>| items_sold_in(t)) {
            Ok(count) => Some(AppEventView::ScrapeItemsSold(count)),
            Err(_) => None,
        },
        Figure::Feedback => match feedback_reading(reading) {
            Ok(text) => Some(AppEventView::ScrapeFeedback(text)),
            Err(_) => None,
        },
        Figure::Followers => match count_reading(reading, |t: Seq<char>| followers_in(t)) {
            Ok(count) => Some(AppEventView::ScrapeFollowerCount(count)),
            Err(_) => None,
        },
    }
}

/// The events that the failure of an action leads to: a driver that does
/// not start, a session that does not connect and a page that does not load
/// are reported; a listing index that cannot be read ends the run; any other
/// failure leads to nothing.
pub open spec fn failure_signals(action: ActionView, message: Seq<char>) -> Seq<AppEventView> {
    match action {
        ActionView::LaunchDriver => seq![AppEventView::GeckodriverError(message)],
        ActionView::ConnectSession => seq![AppEventView::WebDriverError(message)],
        ActionView::Navigate(_) => seq![AppEventView::NavigationError(message)],
        ActionView::ReadListings => seq![
            AppEventView::SetProgress(PROGRESS_DONE, "✅ Scraping complete!"@),
            AppEventView::ScrapingComplete,
        ],
        _ => Seq::empty(),
    }
}

/// Whether the failure of an action ends the plan that it stands in. The
/// failure of any other action is absorbed: the plan goes on.
pub open spec fn failure_ends_plan(action: ActionView) -> bool {
    action is LaunchDriver || action is ConnectSession || action is Navigate
}

/// What a sequence of events holds.
pub open spec fn signal_views(events: Seq<AppEvent>) -> Seq<AppEventView> {
    events.map_values(|e: AppEvent| e@)
}

/// The text of a result's error.
pub open spec fn count_result(result: Result<u32, String>) -> Result<u32, Seq<char>> {
    match result {
        Ok(n) => Ok(n),
        Err(message) => Err(message@),
    }
}

/// The texts of a result.
pub open spec fn text_result(result: Result<String, String>) -> Result<Seq<char>, Seq<char>> {
    match result {
        Ok(text) => Ok(text@),
        Err(message) => Err(message@),
    }
}

/// Reads the number of items sold from a text.
pub fn items_sold_from(text: &str) -> (count: u32)
    ensures
        count == items_sold_in(text@),
{
    let chars = chars_of(text);
    let digits = remove_char(&chars, ',');
    match parse_count_chars(&digits) {
        Some(n) => n,
        None => 0,
    }
}

/// Reads the number of followers from a text.
pub fn followers_from(text: &str) -> (count: u32)
    ensures
        count == followers_in(text@),
{
    let chars = chars_of(text);
    let parts = split_words(&chars);
    if parts.len() == 0 {
        return 0;
    }
    proof {
        assert(views(parts@)[0] == parts@[0]@);
    }
    let digits = remove_char(&parts[0], ',');
    match parse_count_chars(&digits) {
        Some(n) => n,
        None => 0,
    }
}

impl App {
    /// The number of items sold that a reading gives.
    pub fn scrape_items_sold_static(reading: Reading) -> (outcome: Result<u32, String>)
        ensures
            count_result(outcome) == count_reading(reading@, |t: Seq<char>| items_sold_in(t)),
    {
        match reading {
            Reading::Text(text) => Ok(items_sold_from(text.as_str())),
            Reading::Absent => Ok(0),
            Reading::Failed(message) => Err(message),
        }
    }

    /// The feedback score that a reading gives.
    pub fn scrape_feedback_static(reading: Reading) -> (outcome: Result<String, String>)
        ensures
            text_result(outcome) == feedback_reading(reading@),
    {
        match reading {
            Reading::Text(text) => Ok(text),
            Reading::Absent => Ok(String::new()),
            Reading::Failed(message) => Err(message),
        }
    }

    /// The number of followers that a reading gives.
    pub fn scrape_follower_count_static(reading: Reading) -> (outcome: Result<u32, String>)
        ensures
            count_result(outcome) == count_reading(reading@, |t: Seq<char>| followers_in(t)),
    {
        match reading {
            Reading::Text(text) => Ok(followers_from(text.as_str())),
            Reading::Absent => Ok(0),
            Reading::Failed(message) => Err(message),
        }
    }
}

/// The event to emit after a figure was read, if any.
pub fn figure_event(figure: Figure, reading: Reading) -> (event: Option<AppEvent>)
    ensures
        event_of(event) == figure_signal(figure, reading@),
{
    match figure {
        Figure::ItemsSold => match App::scrape_items_sold_static(reading) {
            Ok(count) => Some(AppEvent::ScrapeItemsSold(count)),
            Err(_) => None,
        },
        Figure::Feedback => match App::scrape_feedback_static(reading) {
            Ok(text) => Some(AppEvent::ScrapeFeedback(text)),
            Err(_) => None,
        },
        Figure::Followers => match App::scrape_follower_count_static(reading) {
            Ok(count) => Some(AppEvent::ScrapeFollowerCount(count)),
            Err(_) => None,
        },
    }
}

/// The events to emit after an action failed.
pub fn failure_events(action: &Action, message: &str) -> (events: Vec<AppEvent>)
    ensures
        signal_views(events@) == failure_signals(action@, message@),
{
    let mut events: Vec<AppEvent> = Vec::new();
    match action {
        Action::LaunchDriver => {
            events.push(AppEvent::GeckodriverError(String::from_str(message)));
        },
        Action::ConnectSession => {
            events.push(AppEvent::WebDriverError(String::from_str(message)));
        },
        Action::Navigate(_) => {
            events.push(AppEvent::NavigationError(String::from_str(message)));
        },
        Action::ReadListings => {
            events.push(
                AppEvent::SetProgress(PROGRESS_DONE, String::from_str("✅ Scraping complete!")),
            );
            events.push(AppEvent::ScrapingComplete);
        },
        _ => {},
    }
    proof {
        assert(signal_views(events@) =~= failure_signals(action@, message@));
    }
    events
}

/// Whether the failure of an action ends the plan that it stands in.
pub fn ends_plan_on_failure(action: &Action) -> (ends: bool)
    ensures
        ends == failure_ends_plan(action@),
{
    match action {
        Action::LaunchDriver => true,
        Action::ConnectSession => true,
        Action::Navigate(_) => true,
        _ => false,
    }
}

/// Milliseconds to wait for an element of a page to show up.
pub const ELEMENT_WAIT: u64 = 2000;

/// Milliseconds to wait for the description frame of an item page.
pub const FRAME_WAIT: u64 = 3000;

/// Milliseconds to wait for a page to settle after it was loaded.
pub const PAGE_SETTLE: u64 = 3000;

/// Milliseconds to wait for each kind of listing element to show up.
pub const LISTING_WAIT: u64 = 5000;

/// The selector of the element that holds a figure of the seller's page.
pub open spec fn figure_locator(figure: Figure) -> Seq<char> {
    match figure {
        Figure::ItemsSold => "div[title*='items sold'] > span"@,
        Figure::Feedback => ".str-seller-card__feedback-link"@,
        Figure::Followers => ".str-seller-card__store-stats-content > div:nth-child(3)"@,
    }
}

/// The selector of the element that holds a figure of the seller's page.
pub fn figure_selector(figure: Figure) -> (selector: &'static str)
    ensures
        selector@ == figure_locator(figure),
{
    match figure {
        Figure::ItemsSold => "div[title*='items sold'] > span",
        Figure::Feedback => ".str-seller-card__feedback-link",
        Figure::Followers => ".str-seller-card__store-stats-content > div:nth-child(3)",
    }
}

/// The selector of the button that opens the full listing index.
pub fn see_all_selector() -> (selector: &'static str)
    ensures
        selector@ == ".str-marginals__footer--button"@,
{
    ".str-marginals__footer--button"
}

} // verus!
