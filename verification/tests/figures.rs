use ebay::app::App;
use ebay::details::page_address;
use ebay::event::{Action, AppEvent, Figure};
use ebay::figures::{
    ends_plan_on_failure, failure_events, figure_event, followers_from, items_sold_from, Reading,
};
use ebay::listing::Listing;

fn text(value: &str) -> Reading {
    Reading::Text(value.to_string())
}

#[test]
fn items_sold_are_read_without_commas() {
    assert_eq!(items_sold_from("1,234"), 1234);
    assert_eq!(items_sold_from("12"), 12);
    assert_eq!(items_sold_from("1,234,567"), 1234567);
    assert_eq!(items_sold_from("12 items"), 0);
    assert_eq!(items_sold_from(" 12"), 0);
    assert_eq!(items_sold_from(""), 0);
    assert_eq!(items_sold_from("9,999,999,999"), 0);
}

#[test]
fn followers_are_read_from_the_first_word() {
    assert_eq!(followers_from("1 follower"), 1);
    assert_eq!(followers_from("123 followers"), 123);
    assert_eq!(followers_from("  1,234   followers"), 1234);
    assert_eq!(followers_from("followers: 12"), 0);
    assert_eq!(followers_from(""), 0);
    assert_eq!(followers_from("   "), 0);
}

#[test]
fn figures_of_readings() {
    assert_eq!(App::scrape_items_sold_static(text("1,234")), Ok(1234));
    assert_eq!(App::scrape_items_sold_static(text("n/a")), Ok(0));
    assert_eq!(App::scrape_items_sold_static(Reading::Absent), Ok(0));
    assert_eq!(
        App::scrape_items_sold_static(Reading::Failed("stale".to_string())),
        Err("stale".to_string())
    );
    assert_eq!(
        App::scrape_feedback_static(text("99.1% positive")),
        Ok("99.1% positive".to_string())
    );
    assert_eq!(App::scrape_feedback_static(Reading::Absent), Ok(String::new()));
    assert_eq!(
        App::scrape_feedback_static(Reading::Failed("stale".to_string())),
        Err("stale".to_string())
    );
    assert_eq!(App::scrape_follower_count_static(text("56 followers")), Ok(56));
    assert_eq!(App::scrape_follower_count_static(Reading::Absent), Ok(0));
    assert_eq!(
        App::scrape_follower_count_static(Reading::Failed("gone".to_string())),
        Err("gone".to_string())
    );
}

#[test]
fn a_figure_that_was_read_is_emitted() {
    assert_eq!(figure_event(Figure::ItemsSold, text("2,000")), Some(AppEvent::ScrapeItemsSold(2000)));
    assert_eq!(figure_event(Figure::ItemsSold, Reading::Absent), Some(AppEvent::ScrapeItemsSold(0)));
    assert_eq!(
        figure_event(Figure::Feedback, text("100% positive")),
        Some(AppEvent::ScrapeFeedback("100% positive".to_string()))
    );
    assert_eq!(
        figure_event(Figure::Feedback, Reading::Absent),
        Some(AppEvent::ScrapeFeedback(String::new()))
    );
    assert_eq!(
        figure_event(Figure::Followers, text("7 followers")),
        Some(AppEvent::ScrapeFollowerCount(7))
    );
}

#[test]
fn a_figure_that_failed_stays_unknown() {
    for figure in [Figure::ItemsSold, Figure::Feedback, Figure::Followers] {
        assert_eq!(figure_event(figure, Reading::Failed("stale element".to_string())), None);
    }
}

#[test]
fn structural_failures_are_reported_and_end_the_plan() {
    assert_eq!(
        failure_events(&Action::LaunchDriver, "no such file"),
        vec![AppEvent::GeckodriverError("no such file".to_string())]
    );
    assert_eq!(
        failure_events(&Action::ConnectSession, "refused"),
        vec![AppEvent::WebDriverError("refused".to_string())]
    );
    assert!(ends_plan_on_failure(&Action::LaunchDriver));
    assert!(ends_plan_on_failure(&Action::ConnectSession));
}

#[test]
fn navigation_failure_ends_the_stage_only() {
    let action = Action::Navigate("https://www.ebay.com/usr/x".to_string());
    assert_eq!(
        failure_events(&action, "timeout"),
        vec![AppEvent::NavigationError("timeout".to_string())]
    );
    assert!(ends_plan_on_failure(&action));
}

#[test]
fn failed_listing_read_ends_the_run() {
    assert_eq!(
        failure_events(&Action::ReadListings, "gone"),
        vec![
            AppEvent::SetProgress(10000, "✅ Scraping complete!".to_string()),
            AppEvent::ScrapingComplete
        ]
    );
}

#[test]
fn other_failures_are_absorbed() {
    for action in [
        Action::Read(Figure::ItemsSold),
        Action::PressSeeAll,
        Action::Inspect(3),
        Action::Pause(5),
        Action::Persist,
        Action::WatchChallenge,
        Action::OpenUrl("x".to_string()),
    ] {
        assert!(failure_events(&action, "oops").is_empty());
        assert!(!ends_plan_on_failure(&action));
    }
    assert!(!ends_plan_on_failure(&Action::ReadListings));
}

#[test]
fn item_details_are_labelled_in_fixed_order() {
    let (specifics, description) = App::scrape_item_details(
        Some("  Used ".to_string()),
        None,
        Some("X-1\n".to_string()),
        Some("Red".to_string()),
        Some(Some("https://desc.example/1".to_string())),
    );
    assert_eq!(specifics, vec!["Condition: Used", "Model: X-1", "Color: Red"]);
    assert_eq!(description, Some("Description iframe: https://desc.example/1".to_string()));
    let (specifics, description) =
        App::scrape_item_details(None, Some("Acme".to_string()), None, None, Some(None));
    assert_eq!(specifics, vec!["Brand: Acme"]);
    assert_eq!(description, Some("Description iframe: ".to_string()));
    let (specifics, description) = App::scrape_item_details(None, None, None, None, None);
    assert!(specifics.is_empty());
    assert_eq!(description, None);
    let (specifics, _) = App::scrape_item_details(Some("  ".to_string()), None, None, None, None);
    assert_eq!(specifics, vec!["Condition: "]);
}

fn with_id(id: Option<&str>) -> Listing {
    let mut listing = Listing::default();
    listing.title = "t".to_string();
    listing.price = "$1".to_string();
    listing.item_id = id.map(|text| text.to_string());
    listing.item_specifics = vec!["old".to_string()];
    listing.description = Some("old description".to_string());
    listing
}

#[test]
fn page_address_needs_an_item_id() {
    assert_eq!(
        page_address(&with_id(Some("42"))),
        Some("https://www.ebay.com/itm/42".to_string())
    );
    assert_eq!(page_address(&with_id(None)), None);
}

#[test]
fn details_are_filled_into_one_listing_only() {
    let mut listings = vec![with_id(Some("1")), with_id(Some("2")), with_id(Some("3"))];
    App::scrape_listings_with_details(
        &mut listings,
        1,
        Some((vec!["Brand: Acme".to_string()], None)),
    );
    let mut expected = with_id(Some("2"));
    expected.item_specifics = vec!["Brand: Acme".to_string()];
    expected.description = None;
    assert_eq!(listings, vec![with_id(Some("1")), expected, with_id(Some("3"))]);
}

#[test]
fn failed_page_leaves_the_listing_as_it_was() {
    let mut listings = vec![with_id(Some("1")), with_id(Some("2"))];
    App::scrape_listings_with_details(&mut listings, 0, None);
    assert_eq!(listings, vec![with_id(Some("1")), with_id(Some("2"))]);
}
