//! The application state and the reducer that applies events to it.

use crate::event::{
    action_views, command_views, event_views, push_command, Action, ActionView, AppEvent,
    AppEventView, Command, CommandView, Event, EventView, Key, KeyCode, Stage, PROGRESS_DONE,
};
use crate::extract::listings_of_markup;
use crate::listing::{copy_text, listing_views, text_of, Listing, ListingView};
use crate::pipeline::{
    connect_actions, connect_plan, dashboard_actions, dashboard_plan, enrich_actions,
    enrich_plan, expand_actions, expand_plan, extract_actions, extract_plan, finish_plan,
    navigate_actions, navigate_plan, report, report_action, stats_actions, stats_plan,
};
use crate::scroll::{ScrollState, BOTTOM_OFFSET, PAGE_LINES};
use crate::store::{listing_merge_outcome, save_listings, text_before, StoreError};
use vstd::prelude::*;
use vstd::string::StringExecFns;

verus! {

/// Rows of the listing table that fit on the screen.
pub const VISIBLE_ROWS: usize = 25;

/// Rows kept above the selection when it has to be moved into the table.
pub const ROWS_ABOVE: usize = 19;

/// Offset that stands for the bottom of the paragraph view.
pub const PARAGRAPH_BOTTOM: usize = 50;

/// What the screen shows.
#[derive(Debug, Clone, Copy, PartialEq, Eq, Structural)]
pub enum AppState {
    /// The progress of the run.
    Loading,
    /// The dashboard.
    Running,
}

impl Default for AppState {
    fn default() -> (state: Self)
        ensures
            state == AppState::Loading,
    {
        AppState::Loading
    }
}

/// The section of the dashboard that has the focus.
#[derive(Debug, Clone, Copy, PartialEq, Eq, Structural)]
pub enum ScrollViewMode {
    /// The seller's figures.
    Paragraph,
    /// The table of listings.
    Table,
}

impl Default for ScrollViewMode {
    fn default() -> (mode: Self)
        ensures
            mode == ScrollViewMode::Paragraph,
    {
        ScrollViewMode::Paragraph
    }
}

/// The state of the application. Only the reducer changes it.
#[derive(Debug)]
pub struct App {
    /// Whether the event loop goes on.
    pub running: bool,
    pub state: AppState,
    /// The stage that the pipeline is in.
    pub stage: Stage,
    /// Progress of the run in hundredths of a percent.
    pub progress: u32,
    pub progress_message: String,
    pub feedback_score: Option<String>,
    pub items_sold: Option<u32>,
    pub follower_count: Option<u32>,
    pub captcha_detected: bool,
    pub waiting_for_user_input: bool,
    /// The listings of the current run, in the order they were scraped.
    pub listings: Vec<Listing>,
    pub selected_listing_index: usize,
    pub scroll_offset: usize,
    pub scroll_view_mode: ScrollViewMode,
    pub paragraph_scroll_offset: usize,
    pub scroll_view_state: ScrollState,
    pub section_locked: bool,
}

/// What the application state holds, as mathematical values.
pub struct AppView {
    pub running: bool,
    pub state: AppState,
    pub stage: Stage,
    pub progress: u32,
    pub progress_message: Seq<char>,
    pub feedback_score: Option<Seq<char>>,
    pub items_sold: Option<u32>,
    pub follower_count: Option<u32>,
    pub captcha_detected: bool,
    pub waiting_for_user_input: bool,
    pub listings: Seq<ListingView>,
    pub selected_listing_index: usize,
    pub scroll_offset: usize,
    pub scroll_view_mode: ScrollViewMode,
    pub paragraph_scroll_offset: usize,
    pub vertical_scroll: usize,
    pub section_locked: bool,
}

impl View for App {
    type V = AppView;

    open spec fn view(&self) -> AppView {
        AppView {
            running: self.running,
            state: self.state,
            stage: self.stage,
            progress: self.progress,
            progress_message: self.progress_message@,
            feedback_score: text_of(self.feedback_score),
            items_sold: self.items_sold,
            follower_count: self.follower_count,
            captcha_detected: self.captcha_detected,
            waiting_for_user_input: self.waiting_for_user_input,
            listings: listing_views(self.listings@),
            selected_listing_index: self.selected_listing_index,
            scroll_offset: self.scroll_offset,
            scroll_view_mode: self.scroll_view_mode,
            paragraph_scroll_offset: self.paragraph_scroll_offset,
            vertical_scroll: self.scroll_view_state.vertical_scroll,
            section_locked: self.section_locked,
        }
    }
}

/// The address of the seller's page.
pub open spec fn seller_page() -> Seq<char> {
    "https://www.ebay.com/usr/thriftngo5"@
}

/// The message shown while a challenge waits for the user.
pub open spec fn challenge_message() -> Seq<char> {
    "⚠️  CAPTCHA detected! Please solve it manually, then it will automatically continue..."@
}

/// The selection that stays inside a collection of `len` listings: itself
/// where it is inside, else the last listing, or 0 where there is none.
pub open spec fn clamped(selected: usize, len: nat) -> usize {
    if selected < len {
        selected
    } else if len == 0 {
        0
    } else {
        (len - 1) as usize
    }
}

/// The scroll offset that puts the row `selected` on the screen after the
/// selection was moved into the table.
pub open spec fn offset_showing(selected: usize) -> usize {
    if selected >= ROWS_ABOVE {
        (selected - ROWS_ABOVE) as usize
    } else {
        0
    }
}

/// The scroll offset after the selection went down to `selected`.
pub open spec fn offset_after_down(selected: usize, offset: usize) -> usize {
    if selected >= offset + VISIBLE_ROWS {
        (selected - VISIBLE_ROWS + 1) as usize
    } else {
        offset
    }
}

/// The scroll offset after the selection went up to `selected`.
pub open spec fn offset_after_up(selected: usize, offset: usize) -> usize {
    if selected < offset {
        selected
    } else {
        offset
    }
}

/// A single action to perform at once, as an answer.
pub open spec fn just(action: ActionView) -> Seq<CommandView> {
    seq![CommandView::Do(action)]
}

/// A single background task, as an answer.
pub open spec fn task(plan: Seq<ActionView>) -> Seq<CommandView> {
    seq![CommandView::Spawn(plan)]
}

impl AppView {
    /// The state at the start.
    pub open spec fn initial() -> AppView {
        AppView {
            running: true,
            state: AppState::Loading,
            stage: Stage::Idle,
            progress: 0,
            progress_message: Seq::empty(),
            feedback_score: None,
            items_sold: None,
            follower_count: None,
            captcha_detected: false,
            waiting_for_user_input: false,
            listings: Seq::empty(),
            selected_listing_index: 0,
            scroll_offset: 0,
            scroll_view_mode: ScrollViewMode::Paragraph,
            paragraph_scroll_offset: 0,
            vertical_scroll: 0,
            section_locked: false,
        }
    }

    /// The selection points into the listings, or is 0 where there are none.
    pub open spec fn selection_valid(self) -> bool {
        if self.listings.len() == 0 {
            self.selected_listing_index == 0
        } else {
            self.selected_listing_index < self.listings.len()
        }
    }

    /// The state after a signal of the orchestration.
    pub open spec fn after(self, event: AppEventView) -> AppView {
        match event {
            AppEventView::Quit => AppView { running: false, ..self },
            AppEventView::Connect => AppView { stage: Stage::Connecting, ..self },
            AppEventView::SetProgress(value, message) => AppView {
                progress: value,
                progress_message: message,
                ..self
            },
            AppEventView::Init(_) => AppView { stage: Stage::Navigating, ..self },
            AppEventView::ScrapeFeedback(text) => AppView { feedback_score: Some(text), ..self },
            AppEventView::ScrapeItemsSold(count) => AppView { items_sold: Some(count), ..self },
            AppEventView::ScrapeFollowerCount(count) => AppView {
                follower_count: Some(count),
                ..self
            },
            AppEventView::GeckodriverError(error) => AppView {
                progress_message: "Geckodriver error: "@ + error,
                stage: Stage::Failed,
                ..self
            },
            AppEventView::WebDriverError(error) => AppView {
                progress_message: "WebDriver error: "@ + error,
                stage: Stage::Failed,
                ..self
            },
            AppEventView::NavigationComplete => AppView {
                stage: Stage::AwaitingChallengeClearance,
                ..self
            },
            AppEventView::NavigationError(error) => AppView {
                progress_message: "Navigation error: "@ + error,
                stage: Stage::Failed,
                ..self
            },
            AppEventView::CaptchaDetected => AppView {
                captcha_detected: true,
                waiting_for_user_input: true,
                ..self
            },
            AppEventView::CaptchaResolved => AppView {
                captcha_detected: false,
                waiting_for_user_input: false,
                stage: Stage::ScrapingStats,
                ..self
            },
            AppEventView::ClickSeeAll => AppView { stage: Stage::ExpandingListingIndex, ..self },
            AppEventView::ExtractListings => AppView { stage: Stage::ExtractingListings, ..self },
            AppEventView::ScrapeListings(listings) => AppView {
                listings: listings,
                selected_listing_index: 0,
                scroll_offset: 0,
                stage: Stage::Enriching,
                ..self
            },
            AppEventView::EnrichedListings(listings) => {
                let selected = clamped(self.selected_listing_index, listings.len());
                AppView {
                    listings: listings,
                    selected_listing_index: selected,
                    scroll_offset: if self.selected_listing_index >= listings.len() {
                        offset_showing(selected)
                    } else {
                        self.scroll_offset
                    },
                    stage: Stage::Persisting,
                    ..self
                }
            },
            AppEventView::ScrapingComplete => AppView {
                state: AppState::Running,
                stage: Stage::Done,
                ..self
            },
            AppEventView::ClientReady
            | AppEventView::GeckodriverStarted
            | AppEventView::WebDriverConnected
            | AppEventView::NavigateToUrl(_)
            | AppEventView::CaptchaResponse(_)
            | AppEventView::EnrichListings => self,
        }
    }

    /// What the state asks of the shell in answer to a signal.
    pub open spec fn answer(self, event: AppEventView) -> Seq<CommandView> {
        match event {
            AppEventView::Quit => just(ActionView::Shutdown),
            AppEventView::Connect => task(connect_plan()),
            AppEventView::ClientReady => just(
                ActionView::Emit(AppEventView::Init(seller_page())),
            ),
            AppEventView::Init(url) => task(navigate_plan(url)),
            AppEventView::GeckodriverStarted | AppEventView::WebDriverConnected => just(
                ActionView::Emit(AppEventView::ClientReady),
            ),
            AppEventView::GeckodriverError(_) | AppEventView::WebDriverError(_) => just(
                ActionView::Shutdown,
            ),
            AppEventView::CaptchaDetected => just(
                ActionView::Emit(AppEventView::SetProgress(self.progress, challenge_message())),
            ),
            AppEventView::CaptchaResolved => task(stats_plan()),
            AppEventView::ClickSeeAll => task(expand_plan()),
            AppEventView::ExtractListings => task(extract_plan()),
            AppEventView::ScrapeListings(_) => just(
                ActionView::Emit(AppEventView::EnrichListings),
            ),
            AppEventView::EnrichListings => task(enrich_plan(self.listings)),
            AppEventView::EnrichedListings(_) => seq![
                CommandView::Do(ActionView::Persist),
                CommandView::Do(report(PROGRESS_DONE, "✅ Scraping complete!"@)),
                CommandView::Spawn(dashboard_plan()),
            ],
            _ => Seq::empty(),
        }
    }
}

/// Number of dots of the progress gauge.
pub const GAUGE_DOTS: usize = 20;

/// Lines of the dashboard above the first row of the listing table.
pub const TABLE_FIRST_LINE: usize = 13;

/// The dots of the gauge that are filled at a progress: their share of the
/// gauge is the progress, rounded down; progress beyond a finished run fills
/// the gauge.
pub open spec fn filled_dots(progress: u32) -> int {
    if progress >= PROGRESS_DONE {
        GAUGE_DOTS as int
    } else {
        (progress * GAUGE_DOTS) / (PROGRESS_DONE as int)
    }
}

impl AppView {
    /// The first line of the dashboard that is shown on a screen of
    /// `visible` lines: the offset of the section that has the lock, chosen
    /// for the table so that the selected row is on the screen, or the
    /// offset of the whole view where nothing is locked.
    pub open spec fn first_line(self, visible: usize) -> int {
        if !self.section_locked {
            self.vertical_scroll as int
        } else if self.scroll_view_mode == ScrollViewMode::Paragraph {
            self.paragraph_scroll_offset as int
        } else if TABLE_FIRST_LINE + self.selected_listing_index >= visible {
            TABLE_FIRST_LINE + self.selected_listing_index - visible + 1
        } else {
            0
        }
    }
}

impl App {
    /// The numbers of filled and of empty dots of the progress gauge.
    pub fn gauge(&self) -> (dots: (usize, usize))
        ensures
            dots.0 == filled_dots(self@.progress),
            dots.0 + dots.1 == GAUGE_DOTS,
    {
        if self.progress >= PROGRESS_DONE {
            (GAUGE_DOTS, 0)
        } else {
            let filled = (self.progress as u64 * GAUGE_DOTS as u64 / PROGRESS_DONE as u64) as usize;
            proof {
                assert((self.progress * GAUGE_DOTS) / (PROGRESS_DONE as int) < GAUGE_DOTS)
                    by (nonlinear_arith)
                    requires
                        0 <= self.progress < PROGRESS_DONE,
                        GAUGE_DOTS == 20,
                        PROGRESS_DONE == 10000,
                ;
            }
            (filled, GAUGE_DOTS - filled)
        }
    }

    /// The first line of the dashboard to show on a screen of `visible`
    /// lines, or `None` where it does not fit the machine's numbers.
    pub fn first_line(&self, visible: usize) -> (line: Option<usize>)
        ensures
            match line {
                Some(n) => n == self@.first_line(visible),
                None => self@.first_line(visible) > usize::MAX,
            },
    {
        if !self.section_locked {
            Some(self.scroll_view_state.vertical_scroll)
        } else if self.scroll_view_mode == ScrollViewMode::Paragraph {
            Some(self.paragraph_scroll_offset)
        } else {
            let selected_line: u128 = self.selected_listing_index as u128
                + TABLE_FIRST_LINE as u128;
            if selected_line >= visible as u128 {
                let first: u128 = selected_line - visible as u128 + 1;
                if first <= usize::MAX as u128 {
                    Some(first as usize)
                } else {
                    None
                }
            } else {
                Some(0)
            }
        }
    }
}

/// Whether the key asks to leave.
pub open spec fn is_quit_key(key: Key) -> bool {
    ||| key.code == KeyCode::Esc
    ||| key.code == KeyCode::Char('q')
    ||| (key.control && (key.code == KeyCode::Char('c') || key.code == KeyCode::Char('C')))
}

/// Whether the key moves one step down.
pub open spec fn is_down_key(key: Key) -> bool {
    key.code == KeyCode::Down || key.code == KeyCode::Char('j')
}

/// Whether the key moves one step up.
pub open spec fn is_up_key(key: Key) -> bool {
    key.code == KeyCode::Up || key.code == KeyCode::Char('k')
}

/// `value` less `step`, stopping at 0.
pub open spec fn lowered(value: usize, step: usize) -> usize {
    if value >= step {
        (value - step) as usize
    } else {
        0
    }
}

/// The larger of two offsets.
pub open spec fn larger(a: usize, b: usize) -> int {
    if a >= b {
        a as int
    } else {
        b as int
    }
}

impl AppView {
    /// The offsets leave room for `steps` more key presses.
    pub open spec fn room_for(self, steps: nat) -> bool {
        &&& larger(self.paragraph_scroll_offset, PARAGRAPH_BOTTOM) + PAGE_LINES * steps
            <= usize::MAX
        &&& larger(self.vertical_scroll, BOTTOM_OFFSET) + PAGE_LINES * steps <= usize::MAX
    }

    /// The offsets went up by a page at most, or to the bottom.
    pub open spec fn within_a_page_of(self, before: AppView) -> bool {
        &&& larger(self.paragraph_scroll_offset, PARAGRAPH_BOTTOM) <= larger(
            before.paragraph_scroll_offset,
            PARAGRAPH_BOTTOM,
        ) + PAGE_LINES
        &&& larger(self.vertical_scroll, BOTTOM_OFFSET) <= larger(
            before.vertical_scroll,
            BOTTOM_OFFSET,
        ) + PAGE_LINES
    }

    /// The state after a step down.
    pub open spec fn moved_down(self) -> AppView {
        if !self.section_locked {
            AppView { vertical_scroll: (self.vertical_scroll + 1) as usize, ..self }
        } else if self.scroll_view_mode == ScrollViewMode::Paragraph {
            AppView {
                paragraph_scroll_offset: (self.paragraph_scroll_offset + 1) as usize,
                ..self
            }
        } else if self.listings.len() > 0 && self.selected_listing_index < self.listings.len()
            - 1 {
            let selected = (self.selected_listing_index + 1) as usize;
            AppView {
                selected_listing_index: selected,
                scroll_offset: offset_after_down(selected, self.scroll_offset),
                ..self
            }
        } else {
            self
        }
    }

    /// The state after a step up.
    pub open spec fn moved_up(self) -> AppView {
        if !self.section_locked {
            AppView { vertical_scroll: lowered(self.vertical_scroll, 1), ..self }
        } else if self.scroll_view_mode == ScrollViewMode::Paragraph {
            AppView {
                paragraph_scroll_offset: lowered(self.paragraph_scroll_offset, 1),
                ..self
            }
        } else if self.selected_listing_index > 0 {
            let selected = (self.selected_listing_index - 1) as usize;
            AppView {
                selected_listing_index: selected,
                scroll_offset: offset_after_up(selected, self.scroll_offset),
                ..self
            }
        } else {
            self
        }
    }

    /// The state after a page down.
    pub open spec fn paged_down(self) -> AppView {
        if !self.section_locked {
            AppView { vertical_scroll: (self.vertical_scroll + PAGE_LINES) as usize, ..self }
        } else if self.scroll_view_mode == ScrollViewMode::Paragraph {
            AppView {
                paragraph_scroll_offset: (self.paragraph_scroll_offset + PAGE_LINES) as usize,
                ..self
            }
        } else if self.listings.len() > 0 {
            let selected = if self.selected_listing_index + VISIBLE_ROWS < self.listings.len()
                - 1 {
                (self.selected_listing_index + VISIBLE_ROWS) as usize
            } else {
                (self.listings.len() - 1) as usize
            };
            AppView {
                selected_listing_index: selected,
                scroll_offset: offset_after_down(selected, self.scroll_offset),
                ..self
            }
        } else {
            self
        }
    }

    /// The state after a page up.
    pub open spec fn paged_up(self) -> AppView {
        if !self.section_locked {
            AppView { vertical_scroll: lowered(self.vertical_scroll, PAGE_LINES), ..self }
        } else if self.scroll_view_mode == ScrollViewMode::Paragraph {
            AppView {
                paragraph_scroll_offset: lowered(self.paragraph_scroll_offset, PAGE_LINES),
                ..self
            }
        } else if self.listings.len() > 0 {
            let selected = lowered(self.selected_listing_index, VISIBLE_ROWS);
            AppView {
                selected_listing_index: selected,
                scroll_offset: offset_after_up(selected, self.scroll_offset),
                ..self
            }
        } else {
            self
        }
    }

    /// The state after a jump to the start.
    pub open spec fn at_start(self) -> AppView {
        if !self.section_locked {
            AppView { vertical_scroll: 0, ..self }
        } else if self.scroll_view_mode == ScrollViewMode::Paragraph {
            AppView { paragraph_scroll_offset: 0, ..self }
        } else if self.listings.len() > 0 {
            AppView { selected_listing_index: 0, scroll_offset: 0, ..self }
        } else {
            self
        }
    }

    /// The state after a jump to the end.
    pub open spec fn at_end(self) -> AppView {
        if !self.section_locked {
            AppView { vertical_scroll: BOTTOM_OFFSET, ..self }
        } else if self.scroll_view_mode == ScrollViewMode::Paragraph {
            AppView { paragraph_scroll_offset: PARAGRAPH_BOTTOM, ..self }
        } else if self.listings.len() > 0 {
            AppView {
                selected_listing_index: (self.listings.len() - 1) as usize,
                scroll_offset: if self.listings.len() > VISIBLE_ROWS {
                    (self.listings.len() - VISIBLE_ROWS) as usize
                } else {
                    0
                },
                ..self
            }
        } else {
            self
        }
    }

    /// The state after a key press.
    pub open spec fn after_key(self, key: Key) -> AppView {
        if is_quit_key(key) {
            self
        } else if key.code == KeyCode::Enter {
            AppView { section_locked: !self.section_locked, ..self }
        } else if is_down_key(key) {
            self.moved_down()
        } else if is_up_key(key) {
            self.moved_up()
        } else if key.code == KeyCode::PageDown {
            self.paged_down()
        } else if key.code == KeyCode::PageUp {
            self.paged_up()
        } else if key.code == KeyCode::Home {
            self.at_start()
        } else if key.code == KeyCode::End {
            self.at_end()
        } else if key.code == KeyCode::Tab && !self.section_locked {
            AppView {
                scroll_view_mode: if self.scroll_view_mode == ScrollViewMode::Paragraph {
                    ScrollViewMode::Table
                } else {
                    ScrollViewMode::Paragraph
                },
                ..self
            }
        } else {
            self
        }
    }

    /// The address of the selected listing, where the table has the focus
    /// and the listing has one.
    pub open spec fn selected_url(self) -> Option<Seq<char>> {
        if self.scroll_view_mode == ScrollViewMode::Table && self.selected_listing_index
            < self.listings.len() {
            self.listings[self.selected_listing_index as int].url
        } else {
            None
        }
    }

    /// What the state asks of the shell in answer to a key press.
    pub open spec fn key_answer(self, key: Key) -> Seq<CommandView> {
        if is_quit_key(key) {
            just(ActionView::Emit(AppEventView::Quit))
        } else if key.code == KeyCode::Char('i') {
            match self.selected_url() {
                Some(url) => just(ActionView::OpenUrl(url)),
                None => Seq::empty(),
            }
        } else {
            Seq::empty()
        }
    }

    /// The state after anything that the event queue hands over.
    pub open spec fn step(self, event: EventView) -> AppView {
        match event {
            EventView::Tick => self,
            EventView::Input(key) => self.after_key(key),
            EventView::App(signal) => self.after(signal),
        }
    }

    /// What the state asks of the shell in answer to anything that the
    /// event queue hands over.
    pub open spec fn reply(self, event: EventView) -> Seq<CommandView> {
        match event {
            EventView::Tick => Seq::empty(),
            EventView::Input(key) => self.key_answer(key),
            EventView::App(signal) => self.answer(signal),
        }
    }

    /// The state after the events were taken one at a time, in order, for as
    /// long as the loop was running.
    pub open spec fn run(self, events: Seq<EventView>) -> AppView
        decreases events.len(),
    {
        if events.len() == 0 {
            self
        } else {
            let before = self.run(events.drop_last());
            if before.running {
                before.step(events.last())
            } else {
                before
            }
        }
    }

    /// What the state asked of the shell while the events were taken.
    pub open spec fn run_reply(self, events: Seq<EventView>) -> Seq<CommandView>
        decreases events.len(),
    {
        if events.len() == 0 {
            Seq::empty()
        } else {
            let before = self.run(events.drop_last());
            let asked = self.run_reply(events.drop_last());
            if before.running {
                asked + before.reply(events.last())
            } else {
                asked
            }
        }
    }
}

impl Default for App {
    fn default() -> (app: Self)
        ensures
            app@ == AppView::initial(),
            app@.selection_valid(),
    {
        App::new()
    }
}

/// The answer that asks for nothing.
pub fn no_command() -> (commands: Vec<Command>)
    ensures
        command_views(commands@) == Seq::<CommandView>::empty(),
{
    let commands: Vec<Command> = Vec::new();
    proof {
        assert(command_views(commands@) =~= Seq::empty());
    }
    commands
}

/// The answer that asks for one action at once.
pub fn one_action(action: Action) -> (commands: Vec<Command>)
    ensures
        command_views(commands@) == just(action@),
{
    let mut commands = no_command();
    push_command(&mut commands, Command::Do(action));
    proof {
        assert(command_views(commands@) =~= just(action@));
    }
    commands
}

/// The answer that asks for one background task.
pub fn one_task(plan: Vec<Action>) -> (commands: Vec<Command>)
    ensures
        command_views(commands@) == task(action_views(plan@)),
{
    let mut commands = no_command();
    push_command(&mut commands, Command::Spawn(plan));
    proof {
        assert(command_views(commands@) =~= task(action_views(plan@)));
    }
    commands
}

impl App {
    /// The state at the start: loading, nothing scraped, nothing selected.
    pub fn new() -> (app: Self)
        ensures
            app@ == AppView::initial(),
            app@.selection_valid(),
    {
        let app = App {
            running: true,
            state: AppState::Loading,
            stage: Stage::Idle,
            progress: 0,
            progress_message: String::new(),
            feedback_score: None,
            items_sold: None,
            follower_count: None,
            captcha_detected: false,
            waiting_for_user_input: false,
            listings: Vec::new(),
            selected_listing_index: 0,
            scroll_offset: 0,
            scroll_view_mode: ScrollViewMode::Paragraph,
            paragraph_scroll_offset: 0,
            scroll_view_state: ScrollState { vertical_scroll: 0 },
            section_locked: false,
        };
        proof {
            assert(app@.listings =~= Seq::empty());
        }
        app
    }

    /// The timer fired: the state stays as it is.
    pub fn tick(&self) {
    }

    /// Stops the event loop.
    pub fn quit(&mut self)
        ensures
            final(self)@ == old(self)@.after(AppEventView::Quit),
    {
        self.running = false;
    }

    /// Starts the connecting stage.
    pub fn connect(&mut self) -> (commands: Vec<Command>)
        ensures
            final(self)@ == old(self)@.after(AppEventView::Connect),
            command_views(commands@) == old(self)@.answer(AppEventView::Connect),
    {
        self.stage = Stage::Connecting;
        one_task(connect_actions())
    }

    /// Starts the navigating stage: the seller's page is loaded, then the
    /// challenge monitor is started.
    pub fn navigate_to_public_page(&mut self, url: String) -> (commands: Vec<Command>)
        ensures
            final(self)@ == old(self)@.after(AppEventView::Init(url@)),
            command_views(commands@) == old(self)@.answer(AppEventView::Init(url@)),
    {
        self.stage = Stage::Navigating;
        one_task(navigate_actions(url))
    }

    fn show_failure(&mut self, prefix: &str, error: String)
        ensures
            final(self)@ == (AppView {
                progress_message: prefix@ + error@,
                stage: Stage::Failed,
                ..old(self)@
            }),
    {
        self.progress_message = String::from_str(prefix).concat(error.as_str());
        self.stage = Stage::Failed;
    }

    fn challenge_detected(&mut self) -> (commands: Vec<Command>)
        ensures
            final(self)@ == old(self)@.after(AppEventView::CaptchaDetected),
            command_views(commands@) == old(self)@.answer(AppEventView::CaptchaDetected),
    {
        self.captcha_detected = true;
        self.waiting_for_user_input = true;
        let message = String::from_str(
            "⚠️  CAPTCHA detected! Please solve it manually, then it will automatically continue...",
        );
        one_action(Action::Emit(AppEvent::SetProgress(self.progress, message)))
    }

    fn challenge_resolved(&mut self) -> (commands: Vec<Command>)
        ensures
            final(self)@ == old(self)@.after(AppEventView::CaptchaResolved),
            command_views(commands@) == old(self)@.answer(AppEventView::CaptchaResolved),
    {
        self.captcha_detected = false;
        self.waiting_for_user_input = false;
        self.stage = Stage::ScrapingStats;
        one_task(stats_actions())
    }

    fn take_listings(&mut self, listings: Vec<Listing>) -> (commands: Vec<Command>)
        ensures
            final(self)@ == old(self)@.after(
                AppEventView::ScrapeListings(listing_views(listings@)),
            ),
            command_views(commands@) == old(self)@.answer(
                AppEventView::ScrapeListings(listing_views(listings@)),
            ),
            final(self)@.selection_valid(),
    {
        self.listings = listings;
        self.selected_listing_index = 0;
        self.scroll_offset = 0;
        self.stage = Stage::Enriching;
        one_action(Action::Emit(AppEvent::EnrichListings))
    }

    fn take_enriched_listings(&mut self, listings: Vec<Listing>) -> (commands: Vec<Command>)
        ensures
            final(self)@ == old(self)@.after(
                AppEventView::EnrichedListings(listing_views(listings@)),
            ),
            command_views(commands@) == old(self)@.answer(
                AppEventView::EnrichedListings(listing_views(listings@)),
            ),
            final(self)@.selection_valid(),
    {
        self.listings = listings;
        if self.selected_listing_index >= self.listings.len() {
            self.selected_listing_index = if self.listings.len() == 0 {
                0
            } else {
                self.listings.len() - 1
            };
            self.scroll_offset = if self.selected_listing_index >= ROWS_ABOVE {
                self.selected_listing_index - ROWS_ABOVE
            } else {
                0
            };
        }
        self.stage = Stage::Persisting;
        let mut commands: Vec<Command> = Vec::new();
        proof {
            assert(command_views(commands@) =~= Seq::empty());
        }
        push_command(&mut commands, Command::Do(Action::Persist));
        push_command(
            &mut commands,
            Command::Do(report_action(PROGRESS_DONE, "✅ Scraping complete!")),
        );
        push_command(&mut commands, Command::Spawn(dashboard_actions()));
        proof {
            assert(command_views(commands@) =~= old(self)@.answer(
                AppEventView::EnrichedListings(listing_views(listings@)),
            ));
        }
        commands
    }

    /// Applies a signal of the orchestration to the state and says what the
    /// shell has to do for it.
    pub fn apply(&mut self, event: AppEvent) -> (commands: Vec<Command>)
        ensures
            final(self)@ == old(self)@.after(event@),
            command_views(commands@) == old(self)@.answer(event@),
            matches!(event, AppEvent::ScrapeListings(_) | AppEvent::EnrichedListings(_))
                || old(self)@.selection_valid() ==> final(self)@.selection_valid(),
    {
        match event {
            AppEvent::Quit => {
                self.quit();
                one_action(Action::Shutdown)
            },
            AppEvent::Connect => self.connect(),
            AppEvent::ClientReady => {
                let url = String::from_str("https://www.ebay.com/usr/thriftngo5");
                one_action(Action::Emit(AppEvent::Init(url)))
            },
            AppEvent::SetProgress(value, message) => {
                self.progress = value;
                self.progress_message = message;
                no_command()
            },
            AppEvent::Init(url) => self.navigate_to_public_page(url),
            AppEvent::ScrapeFeedback(text) => {
                self.feedback_score = Some(text);
                no_command()
            },
            AppEvent::ScrapeItemsSold(count) => {
                self.items_sold = Some(count);
                no_command()
            },
            AppEvent::ScrapeFollowerCount(count) => {
                self.follower_count = Some(count);
                no_command()
            },
            AppEvent::GeckodriverStarted => one_action(Action::Emit(AppEvent::ClientReady)),
            AppEvent::GeckodriverError(error) => {
                self.show_failure("Geckodriver error: ", error);
                one_action(Action::Shutdown)
            },
            AppEvent::WebDriverConnected => one_action(Action::Emit(AppEvent::ClientReady)),
            AppEvent::WebDriverError(error) => {
                self.show_failure("WebDriver error: ", error);
                one_action(Action::Shutdown)
            },
            AppEvent::NavigateToUrl(_) => no_command(),
            AppEvent::NavigationComplete => {
                self.stage = Stage::AwaitingChallengeClearance;
                no_command()
            },
            AppEvent::NavigationError(error) => {
                self.show_failure("Navigation error: ", error);
                no_command()
            },
            AppEvent::CaptchaDetected => self.challenge_detected(),
            AppEvent::CaptchaResolved => self.challenge_resolved(),
            AppEvent::CaptchaResponse(_) => no_command(),
            AppEvent::ClickSeeAll => {
                self.stage = Stage::ExpandingListingIndex;
                one_task(expand_actions())
            },
            AppEvent::ExtractListings => {
                self.stage = Stage::ExtractingListings;
                one_task(extract_actions())
            },
            AppEvent::ScrapeListings(listings) => self.take_listings(listings),
            AppEvent::EnrichListings => one_task(enrich_actions(&self.listings)),
            AppEvent::EnrichedListings(listings) => self.take_enriched_listings(listings),
            AppEvent::ScrapingComplete => {
                self.state = AppState::Running;
                self.stage = Stage::Done;
                no_command()
            },
        }
    }

    fn move_down(&mut self)
        requires
            old(self)@.room_for(1),
        ensures
            final(self)@ == old(self)@.moved_down(),
    {
        if !self.section_locked {
            self.scroll_view_state.scroll_down();
        } else if self.scroll_view_mode == ScrollViewMode::Paragraph {
            self.paragraph_scroll_offset += 1;
        } else if self.listings.len() > 0 && self.selected_listing_index < self.listings.len()
            - 1 {
            self.selected_listing_index += 1;
            if self.selected_listing_index >= VISIBLE_ROWS && self.selected_listing_index
                - VISIBLE_ROWS >= self.scroll_offset {
                self.scroll_offset = self.selected_listing_index - VISIBLE_ROWS + 1;
            }
        }
    }

    fn move_up(&mut self)
        ensures
            final(self)@ == old(self)@.moved_up(),
    {
        if !self.section_locked {
            self.scroll_view_state.scroll_up();
        } else if self.scroll_view_mode == ScrollViewMode::Paragraph {
            self.paragraph_scroll_offset = self.paragraph_scroll_offset.saturating_sub(1);
        } else if self.selected_listing_index > 0 {
            self.selected_listing_index -= 1;
            if self.selected_listing_index < self.scroll_offset {
                self.scroll_offset = self.selected_listing_index;
            }
        }
    }

    fn page_down(&mut self)
        requires
            old(self)@.room_for(1),
        ensures
            final(self)@ == old(self)@.paged_down(),
    {
        if !self.section_locked {
            self.scroll_view_state.scroll_page_down();
        } else if self.scroll_view_mode == ScrollViewMode::Paragraph {
            self.paragraph_scroll_offset += PAGE_LINES;
        } else if self.listings.len() > 0 {
            let last = self.listings.len() - 1;
            self.selected_listing_index = if self.selected_listing_index < last && last
                - self.selected_listing_index > VISIBLE_ROWS {
                self.selected_listing_index + VISIBLE_ROWS
            } else {
                last
            };
            if self.selected_listing_index >= VISIBLE_ROWS && self.selected_listing_index
                - VISIBLE_ROWS >= self.scroll_offset {
                self.scroll_offset = self.selected_listing_index - VISIBLE_ROWS + 1;
            }
        }
    }

    fn page_up(&mut self)
        ensures
            final(self)@ == old(self)@.paged_up(),
    {
        if !self.section_locked {
            self.scroll_view_state.scroll_page_up();
        } else if self.scroll_view_mode == ScrollViewMode::Paragraph {
            self.paragraph_scroll_offset = self.paragraph_scroll_offset.saturating_sub(
                PAGE_LINES,
            );
        } else if self.listings.len() > 0 {
            self.selected_listing_index = self.selected_listing_index.saturating_sub(
                VISIBLE_ROWS,
            );
            if self.selected_listing_index < self.scroll_offset {
                self.scroll_offset = self.selected_listing_index;
            }
        }
    }

    fn go_to_start(&mut self)
        ensures
            final(self)@ == old(self)@.at_start(),
    {
        if !self.section_locked {
            self.scroll_view_state.scroll_to_top();
        } else if self.scroll_view_mode == ScrollViewMode::Paragraph {
            self.paragraph_scroll_offset = 0;
        } else if self.listings.len() > 0 {
            self.selected_listing_index = 0;
            self.scroll_offset = 0;
        }
    }

    fn go_to_end(&mut self)
        ensures
            final(self)@ == old(self)@.at_end(),
    {
        if !self.section_locked {
            self.scroll_view_state.scroll_to_bottom();
        } else if self.scroll_view_mode == ScrollViewMode::Paragraph {
            self.paragraph_scroll_offset = PARAGRAPH_BOTTOM;
        } else if self.listings.len() > 0 {
            self.selected_listing_index = self.listings.len() - 1;
            self.scroll_offset = if self.listings.len() > VISIBLE_ROWS {
                self.listings.len() - VISIBLE_ROWS
            } else {
                0
            };
        }
    }

    /// The address of the selected listing, where the table has the focus
    /// and the listing has one.
    pub fn selected_url(&self) -> (url: Option<String>)
        ensures
            text_of(url) == self@.selected_url(),
    {
        if self.scroll_view_mode == ScrollViewMode::Table && self.selected_listing_index
            < self.listings.len() {
            proof {
                assert(self@.listings[self.selected_listing_index as int]
                    == self.listings@[self.selected_listing_index as int]@);
            }
            copy_text(&self.listings[self.selected_listing_index].url)
        } else {
            None
        }
    }

    /// Applies a key press to the state and says what the shell has to do
    /// for it.
    pub fn handle_key_events(&mut self, key: Key) -> (commands: Vec<Command>)
        requires
            old(self)@.room_for(1),
        ensures
            final(self)@ == old(self)@.after_key(key),
            command_views(commands@) == old(self)@.key_answer(key),
            old(self)@.selection_valid() ==> final(self)@.selection_valid(),
            final(self)@.within_a_page_of(old(self)@),
    {
        let mut commands: Vec<Command> = Vec::new();
        proof {
            assert(command_views(commands@) =~= Seq::empty());
        }
        let control = key.control;
        match key.code {
            KeyCode::Esc => {
                push_command(&mut commands, Command::Do(Action::Emit(AppEvent::Quit)));
            },
            KeyCode::Enter => {
                self.section_locked = !self.section_locked;
            },
            KeyCode::Down => {
                self.move_down();
            },
            KeyCode::Up => {
                self.move_up();
            },
            KeyCode::PageDown => {
                self.page_down();
            },
            KeyCode::PageUp => {
                self.page_up();
            },
            KeyCode::Home => {
                self.go_to_start();
            },
            KeyCode::End => {
                self.go_to_end();
            },
            KeyCode::Tab => {
                if !self.section_locked {
                    self.scroll_view_mode = match self.scroll_view_mode {
                        ScrollViewMode::Paragraph => ScrollViewMode::Table,
                        ScrollViewMode::Table => ScrollViewMode::Paragraph,
                    };
                }
            },
            KeyCode::Char(c) => {
                if c == 'q' || (control && (c == 'c' || c == 'C')) {
                    push_command(&mut commands, Command::Do(Action::Emit(AppEvent::Quit)));
                } else if c == 'j' {
                    self.move_down();
                } else if c == 'k' {
                    self.move_up();
                } else if c == 'i' {
                    match self.selected_url() {
                        Some(url) => {
                            push_command(&mut commands, Command::Do(Action::OpenUrl(url)));
                        },
                        None => {},
                    }
                }
            },
            KeyCode::Other => {},
        }
        proof {
            assert(command_views(commands@) =~= old(self)@.key_answer(key));
        }
        commands
    }

    /// Applies to the state whatever the event queue hands over and says
    /// what the shell has to do for it.
    pub fn handle_event(&mut self, event: Event) -> (commands: Vec<Command>)
        requires
            old(self)@.room_for(1),
        ensures
            final(self)@ == old(self)@.step(event@),
            command_views(commands@) == old(self)@.reply(event@),
            old(self)@.selection_valid() ==> final(self)@.selection_valid(),
            final(self)@.within_a_page_of(old(self)@),
    {
        match event {
            Event::Tick => {
                self.tick();
                let commands: Vec<Command> = Vec::new();
                proof {
                    assert(command_views(commands@) =~= Seq::empty());
                }
                commands
            },
            Event::Input(key) => self.handle_key_events(key),
            Event::App(signal) => self.apply(signal),
        }
    }

    /// Takes the events one at a time, in order, and applies each in full
    /// before the next; events that come after the loop was stopped are
    /// dropped. Returns what the shell has to do, in order.
    pub fn run(&mut self, events: Vec<Event>) -> (commands: Vec<Command>)
        requires
            old(self)@.room_for(events.len() as nat),
        ensures
            final(self)@ == old(self)@.run(event_views(events@)),
            command_views(commands@) == old(self)@.run_reply(event_views(events@)),
            old(self)@.selection_valid() ==> final(self)@.selection_valid(),
    {
        let ghost all = event_views(events@);
        let ghost total = events.len() as nat;
        let mut commands: Vec<Command> = Vec::new();
        proof {
            assert(command_views(commands@) =~= Seq::empty());
            assert(all.subrange(0, 0) =~= Seq::empty());
        }
        for event in it: events
            invariant
                it.seq().len() == total,
                all == event_views(it.seq()),
                self@ == old(self)@.run(all.subrange(0, it.index() as int)),
                command_views(commands@) == old(self)@.run_reply(
                    all.subrange(0, it.index() as int),
                ),
                old(self)@.selection_valid() ==> self@.selection_valid(),
                self@.room_for((total - it.index()) as nat),
        {
            proof {
                let upto = all.subrange(0, it.index() + 1);
                assert(upto.drop_last() =~= all.subrange(0, it.index() as int));
                assert(upto.last() == event@);
                assert(PAGE_LINES * (total - it.index() - 1) + PAGE_LINES == PAGE_LINES * (total
                    - it.index())) by (nonlinear_arith);
            }
            if self.running {
                let ghost asked = command_views(commands@);
                let mut more = self.handle_event(event);
                let ghost extra = command_views(more@);
                commands.append(&mut more);
                proof {
                    assert(command_views(commands@) =~= asked + extra);
                }
            }
        }
        proof {
            assert(all.subrange(0, total as int) =~= all);
        }
        commands
    }

    /// Extracts the listings from the markup of a listing index.
    pub fn scrape_listings_from_html(html_content: &str) -> (listings: Vec<Listing>)
        ensures
            listing_views(listings@) == listings_of_markup(html_content@),
    {
        crate::extract::scrape_listings_from_html(html_content)
    }

    /// Merges the listings of the state into the store and returns the text
    /// of the whole store, to be written in place of the old one; `None`
    /// where the state holds no listings, and nothing is to be written.
    pub fn save_listings_to_csv(&self, existing: Option<&str>) -> (outcome: Result<
        Option<String>,
        StoreError,
    >)
        ensures
            self@.listings.len() == 0 ==> outcome == Ok::<Option<String>, StoreError>(None),
            self@.listings.len() > 0 ==> match outcome {
                Ok(Some(text)) => Ok::<Seq<char>, StoreError>(text@) == listing_merge_outcome(
                    text_before(existing),
                    self@.listings,
                ),
                Ok(None) => false,
                Err(error) => Err::<Seq<char>, StoreError>(error) == listing_merge_outcome(
                    text_before(existing),
                    self@.listings,
                ),
            },
    {
        if self.listings.len() == 0 {
            return Ok(None);
        }
        match save_listings(&self.listings, existing) {
            Ok(text) => Ok(Some(text)),
            Err(error) => Err(error),
        }
    }
}

/// Where the listings shrink to `len` while the selection is at `len` or
/// beyond, the selection becomes the last listing, or 0 where none is left.
pub proof fn law_selection_is_clamped(app: AppView, listings: Seq<ListingView>)
    requires
        app.selected_listing_index >= listings.len(),
    ensures
        app.after(AppEventView::EnrichedListings(listings)).selected_listing_index == if 1
            <= listings.len() {
            listings.len() - 1
        } else {
            0
        },
        app.after(AppEventView::EnrichedListings(listings)).selection_valid(),
{
}

/// Whatever is taken from the event queue, a selection that points into the
/// listings still does so afterwards.
pub proof fn law_selection_stays_valid(app: AppView, event: EventView)
    requires
        app.selection_valid(),
    ensures
        app.step(event).selection_valid(),
{
}

/// After a run of events the selection still points into the listings.
pub proof fn law_run_keeps_selection_valid(app: AppView, events: Seq<EventView>)
    requires
        app.selection_valid(),
    ensures
        app.run(events).selection_valid(),
    decreases events.len(),
{
    if events.len() > 0 {
        law_run_keeps_selection_valid(app, events.drop_last());
        law_selection_stays_valid(app.run(events.drop_last()), events.last());
    }
}

/// Once the loop was stopped, events change nothing and ask for nothing.
pub proof fn law_stopped_loop_drops_events(app: AppView, events: Seq<EventView>)
    requires
        !app.running,
    ensures
        app.run(events) == app,
        app.run_reply(events) =~= Seq::<CommandView>::empty(),
    decreases events.len(),
{
    if events.len() > 0 {
        law_stopped_loop_drops_events(app, events.drop_last());
    }
}

/// The timer changes nothing and asks for nothing.
pub proof fn law_tick_is_idle(app: AppView)
    ensures
        app.step(EventView::Tick) == app,
        app.reply(EventView::Tick) =~= Seq::<CommandView>::empty(),
{
}

/// The stages follow each other: what the state asks for in answer to the
/// event that ends one stage is the plan of the next, and each plan ends
/// with the action that brings that stage's closing event about.
pub proof fn law_stages_follow_each_other(
    app: AppView,
    url: Seq<char>,
    listings: Seq<ListingView>,
)
    ensures
        app.answer(AppEventView::Connect) == task(connect_plan()),
        connect_plan().last() == ActionView::Emit(AppEventView::ClientReady),
        app.answer(AppEventView::ClientReady) == just(
            ActionView::Emit(AppEventView::Init(seller_page())),
        ),
        app.answer(AppEventView::Init(url)) == task(navigate_plan(url)),
        navigate_plan(url).last() == ActionView::WatchChallenge,
        app.answer(AppEventView::CaptchaResolved) == task(stats_plan()),
        stats_plan().last() == ActionView::Emit(AppEventView::ClickSeeAll),
        app.answer(AppEventView::ClickSeeAll) == task(expand_plan()),
        expand_plan().last() == ActionView::Emit(AppEventView::ExtractListings),
        app.answer(AppEventView::ExtractListings) == task(extract_plan()),
        extract_plan().last() == ActionView::ReadListings,
        app.answer(AppEventView::ScrapeListings(listings)) == just(
            ActionView::Emit(AppEventView::EnrichListings),
        ),
        app.after(AppEventView::ScrapeListings(listings)).answer(AppEventView::EnrichListings)
            == task(enrich_plan(listings)),
        enrich_plan(listings).last() == ActionView::DeliverEnriched,
        app.answer(AppEventView::EnrichedListings(listings)) == seq![
            CommandView::Do(finish_plan()[0]),
            CommandView::Do(finish_plan()[1]),
            CommandView::Spawn(dashboard_plan()),
        ],
        dashboard_plan().last() == ActionView::Emit(AppEventView::ScrapingComplete),
{
}

/// Over the events of a successful run the state goes through the stages
/// in their order, and ends with the dashboard on the screen.
pub proof fn law_stages_in_order(app: AppView, url: Seq<char>, listings: Seq<ListingView>)
    ensures
        ({
            let connecting = app.after(AppEventView::Connect);
            let navigating = connecting.after(AppEventView::ClientReady).after(
                AppEventView::Init(url),
            );
            let awaiting = navigating.after(AppEventView::NavigationComplete);
            let scraping = awaiting.after(AppEventView::CaptchaResolved);
            let expanding = scraping.after(AppEventView::ClickSeeAll);
            let extracting = expanding.after(AppEventView::ExtractListings);
            let enriching = extracting.after(AppEventView::ScrapeListings(listings)).after(
                AppEventView::EnrichListings,
            );
            let persisting = enriching.after(AppEventView::EnrichedListings(listings));
            let done = persisting.after(AppEventView::ScrapingComplete);
            &&& connecting.stage == Stage::Connecting
            &&& navigating.stage == Stage::Navigating
            &&& awaiting.stage == Stage::AwaitingChallengeClearance
            &&& scraping.stage == Stage::ScrapingStats
            &&& expanding.stage == Stage::ExpandingListingIndex
            &&& extracting.stage == Stage::ExtractingListings
            &&& enriching.stage == Stage::Enriching
            &&& persisting.stage == Stage::Persisting
            &&& done.stage == Stage::Done
            &&& done.state == AppState::Running
            &&& done.listings == listings
            &&& done.running == app.running
        }),
{
}

/// A challenge that shows up does not move the progress: the report that
/// announces it carries the progress that was reached.
pub proof fn law_challenge_keeps_progress(app: AppView)
    ensures
        app.after(AppEventView::CaptchaDetected).progress == app.progress,
        app.answer(AppEventView::CaptchaDetected) == just(
            report(app.progress, challenge_message()),
        ),
{
}

} // verus!
