//! The events that drive the application state and the actions it asks of
//! the shell around it.

use crate::listing::{listing_views, Listing, ListingView};
use vstd::prelude::*;

verus! {

/// Progress of a finished run, in hundredths of a percent.
pub const PROGRESS_DONE: u32 = 10000;

/// A stage of the scraping pipeline.
#[derive(Debug, Clone, Copy, PartialEq, Eq, Structural)]
pub enum Stage {
    /// Nothing has been started.
    Idle,
    Connecting,
    Navigating,
    AwaitingChallengeClearance,
    ScrapingStats,
    ExpandingListingIndex,
    ExtractingListings,
    Enriching,
    Persisting,
    Done,
    /// The run was given up; the status message says why.
    Failed,
}

/// A signal of the orchestration, applied to the state one at a time.
#[derive(Debug, Clone, PartialEq)]
pub enum AppEvent {
    /// Shut down in order and leave.
    Quit,
    /// Start the browser driver and connect the automation session.
    Connect,
    /// The session is ready for use.
    ClientReady,
    /// Progress in hundredths of a percent, with a status message.
    SetProgress(u32, String),
    /// Navigate to the seller page and watch for a challenge.
    Init(String),
    ScrapeFeedback(String),
    ScrapeItemsSold(u32),
    ScrapeFollowerCount(u32),
    GeckodriverStarted,
    GeckodriverError(String),
    WebDriverConnected,
    WebDriverError(String),
    NavigateToUrl(String),
    NavigationComplete,
    NavigationError(String),
    /// The page shows a challenge that the user has to solve.
    CaptchaDetected,
    /// No challenge stands in the way any more.
    CaptchaResolved,
    CaptchaResponse(bool),
    /// Open the full listing index.
    ClickSeeAll,
    /// Read the listing index from the page.
    ExtractListings,
    /// The listings read from the index.
    ScrapeListings(Vec<Listing>),
    /// Visit each listing's own page.
    EnrichListings,
    /// The listings after their pages were visited.
    EnrichedListings(Vec<Listing>),
    /// The run is over; show the dashboard.
    ScrapingComplete,
}

/// What an `AppEvent` holds, as mathematical values.
pub enum AppEventView {
    Quit,
    Connect,
    ClientReady,
    SetProgress(u32, Seq<char>),
    Init(Seq<char>),
    ScrapeFeedback(Seq<char>),
    ScrapeItemsSold(u32),
    ScrapeFollowerCount(u32),
    GeckodriverStarted,
    GeckodriverError(Seq<char>),
    WebDriverConnected,
    WebDriverError(Seq<char>),
    NavigateToUrl(Seq<char>),
    NavigationComplete,
    NavigationError(Seq<char>),
    CaptchaDetected,
    CaptchaResolved,
    CaptchaResponse(bool),
    ClickSeeAll,
    ExtractListings,
    ScrapeListings(Seq<ListingView>),
    EnrichListings,
    EnrichedListings(Seq<ListingView>),
    ScrapingComplete,
}

impl View for AppEvent {
    type V = AppEventView;

    open spec fn view(&self) -> AppEventView {
        match *self {
            AppEvent::Quit => AppEventView::Quit,
            AppEvent::Connect => AppEventView::Connect,
            AppEvent::ClientReady => AppEventView::ClientReady,
            AppEvent::SetProgress(value, message) => AppEventView::SetProgress(value, message@),
            AppEvent::Init(url) => AppEventView::Init(url@),
            AppEvent::ScrapeFeedback(text) => AppEventView::ScrapeFeedback(text@),
            AppEvent::ScrapeItemsSold(count) => AppEventView::ScrapeItemsSold(count),
            AppEvent::ScrapeFollowerCount(count) => AppEventView::ScrapeFollowerCount(count),
            AppEvent::GeckodriverStarted => AppEventView::GeckodriverStarted,
            AppEvent::GeckodriverError(error) => AppEventView::GeckodriverError(error@),
            AppEvent::WebDriverConnected => AppEventView::WebDriverConnected,
            AppEvent::WebDriverError(error) => AppEventView::WebDriverError(error@),
            AppEvent::NavigateToUrl(url) => AppEventView::NavigateToUrl(url@),
            AppEvent::NavigationComplete => AppEventView::NavigationComplete,
            AppEvent::NavigationError(error) => AppEventView::NavigationError(error@),
            AppEvent::CaptchaDetected => AppEventView::CaptchaDetected,
            AppEvent::CaptchaResolved => AppEventView::CaptchaResolved,
            AppEvent::CaptchaResponse(answer) => AppEventView::CaptchaResponse(answer),
            AppEvent::ClickSeeAll => AppEventView::ClickSeeAll,
            AppEvent::ExtractListings => AppEventView::ExtractListings,
            AppEvent::ScrapeListings(listings) => AppEventView::ScrapeListings(
                listing_views(listings@),
            ),
            AppEvent::EnrichListings => AppEventView::EnrichListings,
            AppEvent::EnrichedListings(listings) => AppEventView::EnrichedListings(
                listing_views(listings@),
            ),
            AppEvent::ScrapingComplete => AppEventView::ScrapingComplete,
        }
    }
}

/// A figure of the seller's page.
#[derive(Debug, Clone, Copy, PartialEq, Eq, Structural)]
pub enum Figure {
    ItemsSold,
    Feedback,
    Followers,
}

/// Something that the shell does for the state: it performs the actions of a
/// list in order.
#[derive(Debug, Clone, PartialEq)]
pub enum Action {
    /// Put the event at the end of the event queue.
    Emit(AppEvent),
    /// Wait for so many milliseconds.
    Pause(u64),
    /// Start the browser driver.
    LaunchDriver,
    /// Connect the automation session to the driver.
    ConnectSession,
    /// Load the page at the address.
    Navigate(String),
    /// Watch the current address for a challenge until it is clear.
    WatchChallenge,
    /// Read a figure of the seller's page and emit what it gives.
    Read(Figure),
    /// Press the button that opens the full listing index.
    PressSeeAll,
    /// Read the page's markup and emit the listings in it.
    ReadListings,
    /// Visit the page of the listing at the index and take its details.
    Inspect(usize),
    /// Emit the listings with the details gathered.
    DeliverEnriched,
    /// Merge the listings into the store.
    Persist,
    /// Show the address in the user's browser.
    OpenUrl(String),
    /// Close the session and stop the driver.
    Shutdown,
}

/// What an `Action` holds, as mathematical values.
pub enum ActionView {
    Emit(AppEventView),
    Pause(u64),
    LaunchDriver,
    ConnectSession,
    Navigate(Seq<char>),
    WatchChallenge,
    Read(Figure),
    PressSeeAll,
    ReadListings,
    Inspect(usize),
    DeliverEnriched,
    Persist,
    OpenUrl(Seq<char>),
    Shutdown,
}

impl View for Action {
    type V = ActionView;

    open spec fn view(&self) -> ActionView {
        match *self {
            Action::Emit(event) => ActionView::Emit(event@),
            Action::Pause(millis) => ActionView::Pause(millis),
            Action::LaunchDriver => ActionView::LaunchDriver,
            Action::ConnectSession => ActionView::ConnectSession,
            Action::Navigate(url) => ActionView::Navigate(url@),
            Action::WatchChallenge => ActionView::WatchChallenge,
            Action::Read(figure) => ActionView::Read(figure),
            Action::PressSeeAll => ActionView::PressSeeAll,
            Action::ReadListings => ActionView::ReadListings,
            Action::Inspect(index) => ActionView::Inspect(index),
            Action::DeliverEnriched => ActionView::DeliverEnriched,
            Action::Persist => ActionView::Persist,
            Action::OpenUrl(url) => ActionView::OpenUrl(url@),
            Action::Shutdown => ActionView::Shutdown,
        }
    }
}

/// What a sequence of actions holds.
pub open spec fn action_views(actions: Seq<Action>) -> Seq<ActionView> {
    actions.map_values(|a: Action| a@)
}

/// What the state asks of the shell in answer to an event.
#[derive(Debug, Clone, PartialEq)]
pub enum Command {
    /// Perform the action before the next event is taken.
    Do(Action),
    /// Perform the actions in order in one background task.
    Spawn(Vec<Action>),
}

/// What a `Command` holds, as mathematical values.
pub enum CommandView {
    Do(ActionView),
    Spawn(Seq<ActionView>),
}

impl View for Command {
    type V = CommandView;

    open spec fn view(&self) -> CommandView {
        match *self {
            Command::Do(action) => CommandView::Do(action@),
            Command::Spawn(actions) => CommandView::Spawn(action_views(actions@)),
        }
    }
}

/// What a sequence of commands holds.
pub open spec fn command_views(commands: Seq<Command>) -> Seq<CommandView> {
    commands.map_values(|c: Command| c@)
}

/// Appends an action to a plan.
pub fn push_action(plan: &mut Vec<Action>, action: Action)
    ensures
        action_views(final(plan)@) == action_views(old(plan)@).push(action@),
{
    plan.push(action);
    proof {
        assert(action_views(plan@) =~= action_views(old(plan)@).push(action@));
    }
}

/// Appends a command to an answer.
pub fn push_command(commands: &mut Vec<Command>, command: Command)
    ensures
        command_views(final(commands)@) == command_views(old(commands)@).push(command@),
{
    commands.push(command);
    proof {
        assert(command_views(commands@) =~= command_views(old(commands)@).push(command@));
    }
}

/// The code of a key.
#[derive(Debug, Clone, Copy, PartialEq, Eq, Structural)]
pub enum KeyCode {
    Esc,
    Enter,
    Down,
    Up,
    PageDown,
    PageUp,
    Home,
    End,
    Tab,
    Char(char),
    /// Any other key.
    Other,
}

/// A key press.
#[derive(Debug, Clone, Copy, PartialEq, Eq, Structural)]
pub struct Key {
    pub code: KeyCode,
    /// Whether the control key, and no other modifier, was held.
    pub control: bool,
}

/// Anything that the event queue hands to the state.
#[derive(Debug, Clone, PartialEq)]
pub enum Event {
    /// The timer fired: time to draw, nothing else.
    Tick,
    /// The user pressed a key.
    Input(Key),
    /// A signal of the orchestration.
    App(AppEvent),
}

/// What an `Event` holds, as mathematical values.
pub enum EventView {
    Tick,
    Input(Key),
    App(AppEventView),
}

impl View for Event {
    type V = EventView;

    open spec fn view(&self) -> EventView {
        match *self {
            Event::Tick => EventView::Tick,
            Event::Input(key) => EventView::Input(key),
            Event::App(event) => EventView::App(event@),
        }
    }
}

/// What a sequence of events holds.
pub open spec fn event_views(events: Seq<Event>) -> Seq<EventView> {
    events.map_values(|e: Event| e@)
}

} // verus!
