use ebay::app::{App, AppState, ScrollViewMode};
use ebay::event::{Action, AppEvent, Command, Event, Key, KeyCode, Stage};
use ebay::listing::Listing;
use ebay::pipeline::{
    connect_actions, dashboard_actions, enrich_actions, expand_actions, extract_actions,
    navigate_actions, stats_actions,
};

fn item(id: &str, title: &str) -> Listing {
    let mut listing = Listing::default();
    listing.title = title.to_string();
    listing.price = "$1".to_string();
    listing.item_id = Some(id.to_string());
    listing.url = Some(format!("https://www.ebay.com/itm/{}", id));
    listing
}

fn items(count: usize) -> Vec<Listing> {
    (0..count).map(|i| item(&i.to_string(), &format!("item {}", i))).collect()
}

fn press(code: KeyCode) -> Key {
    Key { code, control: false }
}

fn emit(event: AppEvent) -> Command {
    Command::Do(Action::Emit(event))
}

#[test]
fn new_state_is_loading_and_empty() {
    let app = App::new();
    assert!(app.running);
    assert_eq!(app.state, AppState::Loading);
    assert_eq!(app.stage, Stage::Idle);
    assert_eq!(app.progress, 0);
    assert_eq!(app.progress_message, "");
    assert_eq!(app.feedback_score, None);
    assert_eq!(app.items_sold, None);
    assert_eq!(app.follower_count, None);
    assert!(!app.captcha_detected);
    assert!(!app.waiting_for_user_input);
    assert!(app.listings.is_empty());
    assert_eq!(app.selected_listing_index, 0);
    assert_eq!(app.scroll_offset, 0);
    assert_eq!(app.scroll_view_mode, ScrollViewMode::Paragraph);
    assert_eq!(app.paragraph_scroll_offset, 0);
    assert_eq!(app.scroll_view_state.vertical_scroll, 0);
    assert!(!app.section_locked);
    assert_eq!(AppState::default(), AppState::Loading);
    assert_eq!(ScrollViewMode::default(), ScrollViewMode::Paragraph);
}

#[test]
fn quit_stops_the_loop_and_shuts_down() {
    let mut app = App::new();
    assert_eq!(app.apply(AppEvent::Quit), vec![Command::Do(Action::Shutdown)]);
    assert!(!app.running);
}

#[test]
fn connect_spawns_the_connecting_stage() {
    let mut app = App::new();
    assert_eq!(app.apply(AppEvent::Connect), vec![Command::Spawn(connect_actions())]);
    assert_eq!(app.stage, Stage::Connecting);
    let mut other = App::new();
    assert_eq!(other.connect(), vec![Command::Spawn(connect_actions())]);
}

#[test]
fn ready_session_starts_with_the_seller_page() {
    let mut app = App::new();
    let url = "https://www.ebay.com/usr/thriftngo5".to_string();
    assert_eq!(app.apply(AppEvent::ClientReady), vec![emit(AppEvent::Init(url.clone()))]);
    assert_eq!(app.apply(AppEvent::GeckodriverStarted), vec![emit(AppEvent::ClientReady)]);
    assert_eq!(app.apply(AppEvent::WebDriverConnected), vec![emit(AppEvent::ClientReady)]);
    assert_eq!(
        app.apply(AppEvent::Init(url.clone())),
        vec![Command::Spawn(navigate_actions(url.clone()))]
    );
    assert_eq!(app.stage, Stage::Navigating);
    assert_eq!(
        navigate_actions(url.clone()),
        vec![
            Action::Navigate(url),
            Action::Emit(AppEvent::NavigationComplete),
            Action::WatchChallenge
        ]
    );
    assert!(app.apply(AppEvent::NavigationComplete).is_empty());
    assert_eq!(app.stage, Stage::AwaitingChallengeClearance);
}

#[test]
fn progress_and_figures_are_stored() {
    let mut app = App::new();
    assert!(app.apply(AppEvent::SetProgress(4000, "working".to_string())).is_empty());
    assert_eq!(app.progress, 4000);
    assert_eq!(app.progress_message, "working");
    assert!(app.apply(AppEvent::ScrapeFeedback("99.1% positive".to_string())).is_empty());
    assert!(app.apply(AppEvent::ScrapeItemsSold(1234)).is_empty());
    assert!(app.apply(AppEvent::ScrapeFollowerCount(56)).is_empty());
    assert_eq!(app.feedback_score, Some("99.1% positive".to_string()));
    assert_eq!(app.items_sold, Some(1234));
    assert_eq!(app.follower_count, Some(56));
    assert!(app.apply(AppEvent::NavigateToUrl("x".to_string())).is_empty());
    assert!(app.apply(AppEvent::CaptchaResponse(true)).is_empty());
    assert_eq!(app.progress, 4000);
}

#[test]
fn failures_show_a_message_and_fail_the_stage() {
    let mut app = App::new();
    assert_eq!(
        app.apply(AppEvent::GeckodriverError("not found".to_string())),
        vec![Command::Do(Action::Shutdown)]
    );
    assert_eq!(app.progress_message, "Geckodriver error: not found");
    assert_eq!(app.stage, Stage::Failed);
    assert!(app.running);
    let mut app = App::new();
    assert_eq!(
        app.apply(AppEvent::WebDriverError("refused".to_string())),
        vec![Command::Do(Action::Shutdown)]
    );
    assert!(app.running);
    assert_eq!(app.progress_message, "WebDriver error: refused");
    assert_eq!(app.stage, Stage::Failed);
    let mut app = App::new();
    assert!(app.apply(AppEvent::NavigationError("timeout".to_string())).is_empty());
    assert_eq!(app.progress_message, "Navigation error: timeout");
    assert_eq!(app.stage, Stage::Failed);
}

#[test]
fn challenge_sets_and_clears_the_flags() {
    let mut app = App::new();
    app.apply(AppEvent::SetProgress(3000, "navigating".to_string()));
    let commands = app.apply(AppEvent::CaptchaDetected);
    assert!(app.captcha_detected);
    assert!(app.waiting_for_user_input);
    assert_eq!(
        commands,
        vec![emit(AppEvent::SetProgress(
            3000,
            "⚠️  CAPTCHA detected! Please solve it manually, then it will automatically continue..."
                .to_string()
        ))]
    );
    let commands = app.apply(AppEvent::CaptchaResolved);
    assert!(!app.captcha_detected);
    assert!(!app.waiting_for_user_input);
    assert_eq!(app.stage, Stage::ScrapingStats);
    assert_eq!(commands, vec![Command::Spawn(stats_actions())]);
}

#[test]
fn listing_index_is_expanded_then_read() {
    let mut app = App::new();
    assert_eq!(app.apply(AppEvent::ClickSeeAll), vec![Command::Spawn(expand_actions())]);
    assert_eq!(app.stage, Stage::ExpandingListingIndex);
    assert_eq!(app.apply(AppEvent::ExtractListings), vec![Command::Spawn(extract_actions())]);
    assert_eq!(app.stage, Stage::ExtractingListings);
}

#[test]
fn scraped_listings_replace_the_collection_and_reset_the_selection() {
    let mut app = App::new();
    app.listings = items(10);
    app.selected_listing_index = 7;
    app.scroll_offset = 3;
    let commands = app.apply(AppEvent::ScrapeListings(items(4)));
    assert_eq!(app.listings, items(4));
    assert_eq!(app.selected_listing_index, 0);
    assert_eq!(app.scroll_offset, 0);
    assert_eq!(app.stage, Stage::Enriching);
    assert_eq!(commands, vec![emit(AppEvent::EnrichListings)]);
    let commands = app.apply(AppEvent::EnrichListings);
    assert_eq!(commands, vec![Command::Spawn(enrich_actions(&items(4)))]);
    assert_eq!(app.listings, items(4));
}

#[test]
fn enriched_listings_end_the_run() {
    let mut app = App::new();
    app.listings = items(3);
    app.selected_listing_index = 1;
    app.scroll_offset = 1;
    let commands = app.apply(AppEvent::EnrichedListings(items(2)));
    assert_eq!(app.listings, items(2));
    assert_eq!(app.selected_listing_index, 1);
    assert_eq!(app.scroll_offset, 1);
    assert_eq!(app.stage, Stage::Persisting);
    assert_eq!(
        commands,
        vec![
            Command::Do(Action::Persist),
            emit(AppEvent::SetProgress(10000, "✅ Scraping complete!".to_string())),
            Command::Spawn(dashboard_actions()),
        ]
    );
    assert_eq!(
        dashboard_actions(),
        vec![Action::Pause(1000), Action::Emit(AppEvent::ScrapingComplete)]
    );
    assert!(app.apply(AppEvent::ScrapingComplete).is_empty());
    assert_eq!(app.state, AppState::Running);
    assert_eq!(app.stage, Stage::Done);
}

#[test]
fn selection_is_clamped_when_the_collection_shrinks() {
    let mut app = App::new();
    app.listings = items(10);
    app.selected_listing_index = 7;
    app.scroll_offset = 2;
    app.apply(AppEvent::EnrichedListings(items(3)));
    assert_eq!(app.selected_listing_index, 2);
    assert_eq!(app.scroll_offset, 0);

    let mut app = App::new();
    app.listings = items(50);
    app.selected_listing_index = 49;
    app.scroll_offset = 30;
    app.apply(AppEvent::EnrichedListings(items(40)));
    assert_eq!(app.selected_listing_index, 39);
    assert_eq!(app.scroll_offset, 20);

    let mut app = App::new();
    app.listings = items(5);
    app.selected_listing_index = 5;
    app.apply(AppEvent::EnrichedListings(items(5)));
    assert_eq!(app.selected_listing_index, 4);

    let mut app = App::new();
    app.listings = items(5);
    app.selected_listing_index = 3;
    app.scroll_offset = 2;
    app.apply(AppEvent::EnrichedListings(Vec::new()));
    assert_eq!(app.selected_listing_index, 0);
    assert_eq!(app.scroll_offset, 0);
}

#[test]
fn quit_keys_ask_to_quit() {
    let mut app = App::new();
    assert_eq!(app.handle_key_events(press(KeyCode::Esc)), vec![emit(AppEvent::Quit)]);
    assert_eq!(app.handle_key_events(press(KeyCode::Char('q'))), vec![emit(AppEvent::Quit)]);
    assert_eq!(
        app.handle_key_events(Key { code: KeyCode::Char('c'), control: true }),
        vec![emit(AppEvent::Quit)]
    );
    assert_eq!(
        app.handle_key_events(Key { code: KeyCode::Char('C'), control: true }),
        vec![emit(AppEvent::Quit)]
    );
    assert_eq!(
        app.handle_key_events(Key { code: KeyCode::Char('q'), control: true }),
        vec![emit(AppEvent::Quit)]
    );
    assert!(app.handle_key_events(press(KeyCode::Char('c'))).is_empty());
    assert!(app.handle_key_events(press(KeyCode::Other)).is_empty());
    assert!(app.running);
}

#[test]
fn unlocked_keys_scroll_the_whole_view() {
    let mut app = App::new();
    app.handle_key_events(press(KeyCode::Down));
    app.handle_key_events(press(KeyCode::Char('j')));
    assert_eq!(app.scroll_view_state.vertical_scroll, 2);
    app.handle_key_events(press(KeyCode::PageDown));
    assert_eq!(app.scroll_view_state.vertical_scroll, 12);
    app.handle_key_events(press(KeyCode::Up));
    app.handle_key_events(press(KeyCode::Char('k')));
    assert_eq!(app.scroll_view_state.vertical_scroll, 10);
    app.handle_key_events(press(KeyCode::PageUp));
    assert_eq!(app.scroll_view_state.vertical_scroll, 0);
    app.handle_key_events(press(KeyCode::Up));
    assert_eq!(app.scroll_view_state.vertical_scroll, 0);
    app.handle_key_events(press(KeyCode::End));
    assert_eq!(app.scroll_view_state.vertical_scroll, 1000);
    app.handle_key_events(press(KeyCode::Home));
    assert_eq!(app.scroll_view_state.vertical_scroll, 0);
    assert_eq!(app.paragraph_scroll_offset, 0);
    assert_eq!(app.selected_listing_index, 0);
}

#[test]
fn tab_switches_sections_unless_locked() {
    let mut app = App::new();
    app.handle_key_events(press(KeyCode::Tab));
    assert_eq!(app.scroll_view_mode, ScrollViewMode::Table);
    app.handle_key_events(press(KeyCode::Tab));
    assert_eq!(app.scroll_view_mode, ScrollViewMode::Paragraph);
    app.handle_key_events(press(KeyCode::Enter));
    assert!(app.section_locked);
    app.handle_key_events(press(KeyCode::Tab));
    assert_eq!(app.scroll_view_mode, ScrollViewMode::Paragraph);
    app.handle_key_events(press(KeyCode::Enter));
    assert!(!app.section_locked);
}

#[test]
fn locked_paragraph_keys_scroll_the_paragraph() {
    let mut app = App::new();
    app.handle_key_events(press(KeyCode::Enter));
    app.handle_key_events(press(KeyCode::Down));
    assert_eq!(app.paragraph_scroll_offset, 1);
    app.handle_key_events(press(KeyCode::PageDown));
    assert_eq!(app.paragraph_scroll_offset, 11);
    app.handle_key_events(press(KeyCode::Up));
    assert_eq!(app.paragraph_scroll_offset, 10);
    app.handle_key_events(press(KeyCode::PageUp));
    assert_eq!(app.paragraph_scroll_offset, 0);
    app.handle_key_events(press(KeyCode::PageUp));
    assert_eq!(app.paragraph_scroll_offset, 0);
    app.handle_key_events(press(KeyCode::End));
    assert_eq!(app.paragraph_scroll_offset, 50);
    app.handle_key_events(press(KeyCode::Home));
    assert_eq!(app.paragraph_scroll_offset, 0);
    assert_eq!(app.scroll_view_state.vertical_scroll, 0);
}

fn table(count: usize) -> App {
    let mut app = App::new();
    app.listings = items(count);
    app.scroll_view_mode = ScrollViewMode::Table;
    app.section_locked = true;
    app
}

#[test]
fn locked_table_keys_move_the_selection() {
    let mut app = table(100);
    app.handle_key_events(press(KeyCode::Down));
    assert_eq!((app.selected_listing_index, app.scroll_offset), (1, 0));
    for _ in 0..23 {
        app.handle_key_events(press(KeyCode::Down));
    }
    assert_eq!((app.selected_listing_index, app.scroll_offset), (24, 0));
    app.handle_key_events(press(KeyCode::Down));
    assert_eq!((app.selected_listing_index, app.scroll_offset), (25, 1));
    app.handle_key_events(press(KeyCode::PageDown));
    assert_eq!((app.selected_listing_index, app.scroll_offset), (50, 26));
    app.handle_key_events(press(KeyCode::PageDown));
    app.handle_key_events(press(KeyCode::PageDown));
    assert_eq!((app.selected_listing_index, app.scroll_offset), (99, 75));
    app.handle_key_events(press(KeyCode::Down));
    assert_eq!((app.selected_listing_index, app.scroll_offset), (99, 75));
    app.handle_key_events(press(KeyCode::Up));
    assert_eq!((app.selected_listing_index, app.scroll_offset), (98, 75));
    app.handle_key_events(press(KeyCode::PageUp));
    assert_eq!((app.selected_listing_index, app.scroll_offset), (73, 73));
    app.handle_key_events(press(KeyCode::Up));
    assert_eq!((app.selected_listing_index, app.scroll_offset), (72, 72));
    app.handle_key_events(press(KeyCode::Home));
    assert_eq!((app.selected_listing_index, app.scroll_offset), (0, 0));
    app.handle_key_events(press(KeyCode::Up));
    app.handle_key_events(press(KeyCode::PageUp));
    assert_eq!((app.selected_listing_index, app.scroll_offset), (0, 0));
    app.handle_key_events(press(KeyCode::End));
    assert_eq!((app.selected_listing_index, app.scroll_offset), (99, 75));
}

#[test]
fn end_of_a_short_table_keeps_the_offset_at_zero() {
    let mut app = table(25);
    app.handle_key_events(press(KeyCode::End));
    assert_eq!((app.selected_listing_index, app.scroll_offset), (24, 0));
    let mut app = table(26);
    app.handle_key_events(press(KeyCode::End));
    assert_eq!((app.selected_listing_index, app.scroll_offset), (25, 1));
}

#[test]
fn keys_leave_an_empty_table_alone() {
    let mut app = table(0);
    for code in [
        KeyCode::Down,
        KeyCode::Up,
        KeyCode::PageDown,
        KeyCode::PageUp,
        KeyCode::Home,
        KeyCode::End,
        KeyCode::Char('i'),
    ] {
        assert!(app.handle_key_events(press(code)).is_empty());
        assert_eq!((app.selected_listing_index, app.scroll_offset), (0, 0));
    }
}

#[test]
fn i_opens_the_selected_listing_in_the_table() {
    let mut app = table(3);
    app.selected_listing_index = 2;
    assert_eq!(
        app.handle_key_events(press(KeyCode::Char('i'))),
        vec![Command::Do(Action::OpenUrl("https://www.ebay.com/itm/2".to_string()))]
    );
    assert_eq!(app.selected_url(), Some("https://www.ebay.com/itm/2".to_string()));
    app.listings[2].url = None;
    assert!(app.handle_key_events(press(KeyCode::Char('i'))).is_empty());
    app.section_locked = false;
    app.selected_listing_index = 1;
    assert_eq!(
        app.handle_key_events(press(KeyCode::Char('i'))),
        vec![Command::Do(Action::OpenUrl("https://www.ebay.com/itm/1".to_string()))]
    );
    app.scroll_view_mode = ScrollViewMode::Paragraph;
    assert!(app.handle_key_events(press(KeyCode::Char('i'))).is_empty());
    assert_eq!(app.selected_url(), None);
}

#[test]
fn tick_changes_nothing() {
    let mut app = table(3);
    app.tick();
    assert!(app.handle_event(Event::Tick).is_empty());
    assert_eq!(app.listings, items(3));
    assert_eq!(app.selected_listing_index, 0);
    assert!(app.running);
}

#[test]
fn handle_event_dispatches_by_kind() {
    let mut app = App::new();
    assert_eq!(
        app.handle_event(Event::Input(press(KeyCode::Esc))),
        vec![emit(AppEvent::Quit)]
    );
    assert_eq!(
        app.handle_event(Event::App(AppEvent::Quit)),
        vec![Command::Do(Action::Shutdown)]
    );
    assert!(!app.running);
}

#[test]
fn run_applies_events_in_order_until_the_loop_stops() {
    let mut app = App::new();
    let commands = app.run(vec![
        Event::Tick,
        Event::App(AppEvent::SetProgress(1000, "one".to_string())),
        Event::Input(press(KeyCode::Down)),
        Event::App(AppEvent::ScrapeListings(items(3))),
        Event::App(AppEvent::SetProgress(2000, "two".to_string())),
        Event::App(AppEvent::Quit),
        Event::App(AppEvent::SetProgress(3000, "three".to_string())),
        Event::App(AppEvent::ScrapeItemsSold(5)),
        Event::Input(press(KeyCode::Down)),
    ]);
    assert_eq!(commands, vec![emit(AppEvent::EnrichListings), Command::Do(Action::Shutdown)]);
    assert!(!app.running);
    assert_eq!(app.progress, 2000);
    assert_eq!(app.progress_message, "two");
    assert_eq!(app.items_sold, None);
    assert_eq!(app.listings, items(3));
    assert_eq!(app.scroll_view_state.vertical_scroll, 1);
    assert!(app.run(vec![Event::App(AppEvent::Connect)]).is_empty());
    assert_eq!(app.stage, Stage::Enriching);
}

#[test]
fn run_of_nothing_changes_nothing() {
    let mut app = App::new();
    assert!(app.run(Vec::new()).is_empty());
    assert!(app.running);
    assert_eq!(app.stage, Stage::Idle);
}

fn progress_seen(app: &mut App, events: Vec<AppEvent>, seen: &mut Vec<u32>) -> Vec<Command> {
    let mut commands = Vec::new();
    for event in events {
        let is_progress = matches!(event, AppEvent::SetProgress(_, _));
        commands.extend(app.apply(event));
        if is_progress {
            seen.push(app.progress);
        }
    }
    commands
}

fn emitted(actions: &[Action]) -> Vec<AppEvent> {
    actions
        .iter()
        .filter_map(|action| match action {
            Action::Emit(event) => Some(event.clone()),
            _ => None,
        })
        .collect()
}

#[test]
fn progress_of_a_successful_run_never_decreases_and_ends_done() {
    let mut app = App::new();
    let mut seen = Vec::new();
    let listings = items(7);
    let mut queue: Vec<AppEvent> = vec![AppEvent::Connect];
    let mut steps = 0;
    while !queue.is_empty() && steps < 1000 {
        steps += 1;
        let event = queue.remove(0);
        let commands = progress_seen(&mut app, vec![event], &mut seen);
        for command in commands {
            match command {
                Command::Do(Action::Emit(event)) => queue.push(event),
                Command::Do(_) => {}
                Command::Spawn(plan) => {
                    for action in &plan {
                        match action {
                            Action::WatchChallenge => {
                                queue.push(AppEvent::CaptchaDetected);
                                queue.push(AppEvent::CaptchaResolved);
                            }
                            Action::Read(_) => queue.push(AppEvent::ScrapeItemsSold(1)),
                            Action::ReadListings => {
                                queue.push(AppEvent::ScrapeListings(listings.clone()))
                            }
                            Action::DeliverEnriched => {
                                queue.push(AppEvent::EnrichedListings(listings.clone()))
                            }
                            _ => {}
                        }
                    }
                    queue.extend(emitted(&plan));
                }
            }
        }
    }
    assert!(queue.is_empty());
    assert_eq!(app.state, AppState::Running);
    assert_eq!(app.stage, Stage::Done);
    assert!(seen.len() >= 10);
    assert!(seen.windows(2).all(|pair| pair[0] <= pair[1]), "{:?}", seen);
    assert_eq!(seen.first(), Some(&1000));
    assert_eq!(seen.last(), Some(&10000));
    assert_eq!(app.progress, 10000);
    assert_eq!(app.progress_message, "✅ Scraping complete!");
}

#[test]
fn default_state_is_the_new_state() {
    let app = App::default();
    assert!(app.running);
    assert_eq!(app.state, AppState::Loading);
    assert_eq!(app.stage, Stage::Idle);
    assert_eq!(app.progress, 0);
    assert!(app.listings.is_empty());
    assert_eq!(app.gauge(), (0, 20));
}

#[test]
fn gauge_fills_with_the_progress() {
    let mut app = App::new();
    for (progress, filled) in [(0, 0), (499, 0), (500, 1), (4000, 8), (9500, 19), (9999, 19), (10000, 20), (20000, 20)] {
        app.progress = progress;
        assert_eq!(app.gauge(), (filled, 20 - filled));
    }
}

#[test]
fn first_line_follows_the_section_that_has_the_focus() {
    let mut app = App::new();
    app.scroll_view_state.vertical_scroll = 7;
    app.paragraph_scroll_offset = 3;
    assert_eq!(app.first_line(20), Some(7));
    app.section_locked = true;
    assert_eq!(app.first_line(20), Some(3));
    app.scroll_view_mode = ScrollViewMode::Table;
    app.listings = items(40);
    app.selected_listing_index = 6;
    assert_eq!(app.first_line(20), Some(0));
    app.selected_listing_index = 7;
    assert_eq!(app.first_line(20), Some(1));
    app.selected_listing_index = 30;
    assert_eq!(app.first_line(20), Some(24));
    assert_eq!(app.first_line(0), Some(44));
    app.selected_listing_index = usize::MAX;
    assert_eq!(app.first_line(0), None);
    assert_eq!(app.first_line(14), Some(usize::MAX));
}
