use ebay::event::{Action, AppEvent, Figure};
use ebay::listing::Listing;
use ebay::pipeline::{
    connect_actions, enrich_actions, enrich_message_at, enrich_progress_at, expand_actions,
    extract_actions, report_action, stats_actions,
};

fn report(value: u32, message: &str) -> Action {
    Action::Emit(AppEvent::SetProgress(value, message.to_string()))
}

fn titled(title: &str, id: Option<&str>) -> Listing {
    let mut listing = Listing::default();
    listing.title = title.to_string();
    listing.price = "$1".to_string();
    listing.item_id = id.map(|text| text.to_string());
    listing
}

fn progress_of(plan: &[Action]) -> Vec<u32> {
    plan.iter()
        .filter_map(|action| match action {
            Action::Emit(AppEvent::SetProgress(value, _)) => Some(*value),
            _ => None,
        })
        .collect()
}

#[test]
fn connecting_plan() {
    assert_eq!(
        connect_actions(),
        vec![
            report(1000, "🚀 Starting geckodriver..."),
            Action::LaunchDriver,
            report(2000, "🔗 Connecting to fantoccini..."),
            Action::ConnectSession,
            report(3000, "🌐 Navigating to ebay.com..."),
            Action::Emit(AppEvent::ClientReady),
        ]
    );
}

#[test]
fn stats_plan_reads_the_three_figures_in_turn() {
    assert_eq!(
        stats_actions(),
        vec![
            report(4000, "📦 Scraping items sold..."),
            Action::Pause(500),
            Action::Read(Figure::ItemsSold),
            report(6000, "⭐ Scraping feedback score..."),
            Action::Pause(500),
            Action::Read(Figure::Feedback),
            report(8000, "👥 Scraping follower count..."),
            Action::Pause(500),
            Action::Read(Figure::Followers),
            Action::Emit(AppEvent::ClickSeeAll),
        ]
    );
}

#[test]
fn expanding_and_extracting_plans() {
    assert_eq!(
        expand_actions(),
        vec![
            report(9000, "🖱️ Clicking 'See All' button..."),
            Action::Pause(500),
            Action::PressSeeAll,
            Action::Emit(AppEvent::ExtractListings),
        ]
    );
    assert_eq!(
        extract_actions(),
        vec![report(9500, "📋 Scraping listings..."), Action::Pause(500), Action::ReadListings]
    );
}

#[test]
fn enriching_plan_visits_listings_with_an_id() {
    let listings = vec![
        titled("First", Some("11")),
        titled("Second has no id", None),
        titled("A title that is longer than thirty characters", Some("33")),
    ];
    assert_eq!(
        enrich_actions(&listings),
        vec![
            report(9500, "🔍 Enriching listings with detailed information..."),
            report(9500, "🔍 Processing listing 1/3: First"),
            Action::Inspect(0),
            Action::Pause(1000),
            report(9633, "🔍 Processing listing 2/3: Second has no id"),
            report(9766, "🔍 Processing listing 3/3: A title that is longer than th"),
            Action::Inspect(2),
            Action::Pause(1000),
            Action::DeliverEnriched,
        ]
    );
}

#[test]
fn enriching_plan_for_no_listings() {
    assert_eq!(
        enrich_actions(&Vec::new()),
        vec![
            report(9500, "🔍 Enriching listings with detailed information..."),
            Action::DeliverEnriched
        ]
    );
}

#[test]
fn enriching_progress_is_a_share_of_four_percent() {
    assert_eq!(enrich_progress_at(0, 1), 9500);
    assert_eq!(enrich_progress_at(0, 4), 9500);
    assert_eq!(enrich_progress_at(1, 4), 9600);
    assert_eq!(enrich_progress_at(2, 4), 9700);
    assert_eq!(enrich_progress_at(3, 4), 9800);
    assert_eq!(enrich_progress_at(2, 3), 9766);
    assert_eq!(enrich_progress_at(999, 1000), 9899);
    assert_eq!(enrich_progress_at(usize::MAX - 1, usize::MAX), 9899);
}

#[test]
fn enriching_message_names_position_and_title() {
    assert_eq!(enrich_message_at(0, 2, "Lamp"), "🔍 Processing listing 1/2: Lamp");
    assert_eq!(
        enrich_message_at(9, 120, "0123456789012345678901234567890123456789"),
        "🔍 Processing listing 10/120: 012345678901234567890123456789"
    );
    assert_eq!(enrich_message_at(0, 1, ""), "🔍 Processing listing 1/1: ");
}

#[test]
fn report_action_emits_progress() {
    assert_eq!(report_action(42, "msg"), report(42, "msg"));
}

#[test]
fn reported_progress_rises_over_the_stages() {
    let listings: Vec<Listing> =
        (0..13).map(|i| titled(&format!("item {}", i), Some("1"))).collect();
    let mut all = Vec::new();
    all.extend(connect_actions());
    all.extend(stats_actions());
    all.extend(expand_actions());
    all.extend(extract_actions());
    all.extend(enrich_actions(&listings));
    all.push(report_action(10000, "✅ Scraping complete!"));
    let values = progress_of(&all);
    assert_eq!(values.len(), 3 + 3 + 1 + 1 + 1 + 13 + 1);
    assert!(values.windows(2).all(|pair| pair[0] <= pair[1]), "{:?}", values);
    assert_eq!(values[0], 1000);
    assert_eq!(values[values.len() - 2], 9500 + (400 * 12) / 13);
    assert_eq!(values[values.len() - 1], 10000);
}
