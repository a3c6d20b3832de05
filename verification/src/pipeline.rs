//! The plans of the pipeline's stages: what each stage emits and asks of the
//! shell, in order.

use crate::event::{
    action_views, push_action, Action, ActionView, AppEvent, AppEventView, Figure, PROGRESS_DONE,
};
use crate::listing::{listing_views, Listing, ListingView};
use crate::text::{decimal, decimal_string, prefix, prefix_of};
use vstd::prelude::*;
use vstd::string::StringExecFns;

verus! {

/// Milliseconds between two steps of a stage.
pub const STEP_PAUSE: u64 = 500;

/// Milliseconds between the visits of two item pages.
pub const VISIT_PAUSE: u64 = 1000;

/// Milliseconds between the end of the run and the switch to the dashboard.
pub const FINISH_PAUSE: u64 = 1000;

/// Progress at which the visits of the item pages start.
pub const ENRICH_BASE: u32 = 9500;

/// Share of the progress that the visits of the item pages cover.
pub const ENRICH_SPAN: u32 = 400;

/// Number of characters of a title that a status message shows.
pub const TITLE_SHOWN: usize = 30;

/// An action that reports progress.
pub open spec fn report(value: u32, message: Seq<char>) -> ActionView {
    ActionView::Emit(AppEventView::SetProgress(value, message))
}

/// The plan of the connecting stage.
pub open spec fn connect_plan() -> Seq<ActionView> {
    seq![
        report(1000, "🚀 Starting geckodriver..."@),
        ActionView::LaunchDriver,
        report(2000, "🔗 Connecting to fantoccini..."@),
        ActionView::ConnectSession,
        report(3000, "🌐 Navigating to ebay.com..."@),
        ActionView::Emit(AppEventView::ClientReady),
    ]
}

/// The plan of the navigating stage.
pub open spec fn navigate_plan(url: Seq<char>) -> Seq<ActionView> {
    seq![
        ActionView::Navigate(url),
        ActionView::Emit(AppEventView::NavigationComplete),
        ActionView::WatchChallenge,
    ]
}

/// The plan of the stage that reads the seller's figures.
pub open spec fn stats_plan() -> Seq<ActionView> {
    seq![
        report(4000, "📦 Scraping items sold..."@),
        ActionView::Pause(STEP_PAUSE),
        ActionView::Read(Figure::ItemsSold),
        report(6000, "⭐ Scraping feedback score..."@),
        ActionView::Pause(STEP_PAUSE),
        ActionView::Read(Figure::Feedback),
        report(8000, "👥 Scraping follower count..."@),
        ActionView::Pause(STEP_PAUSE),
        ActionView::Read(Figure::Followers),
        ActionView::Emit(AppEventView::ClickSeeAll),
    ]
}

/// The plan of the stage that opens the full listing index.
pub open spec fn expand_plan() -> Seq<ActionView> {
    seq![
        report(9000, "🖱️ Clicking 'See All' button..."@),
        ActionView::Pause(STEP_PAUSE),
        ActionView::PressSeeAll,
        ActionView::Emit(AppEventView::ExtractListings),
    ]
}

/// The plan of the stage that reads the listing index.
pub open spec fn extract_plan() -> Seq<ActionView> {
    seq![
        report(9500, "📋 Scraping listings..."@),
        ActionView::Pause(STEP_PAUSE),
        ActionView::ReadListings,
    ]
}

/// Progress when the listing at `index` of `total` is taken up.
pub open spec fn enrich_progress(index: nat, total: nat) -> u32 {
    if total == 0 {
        ENRICH_BASE
    } else {
        (ENRICH_BASE + (ENRICH_SPAN * index) / (total as int)) as u32
    }
}

/// Status message when the listing at `index` of `total` is taken up.
pub open spec fn enrich_message(index: nat, total: nat, title: Seq<char>) -> Seq<char> {
    "🔍 Processing listing "@ + decimal(index + 1) + "/"@ + decimal(total) + ": "@ + prefix(
        title,
        TITLE_SHOWN as nat,
    )
}

/// The steps for the listing at `index`: a report, and a visit of its page
/// where it has an item id.
pub open spec fn listing_steps(listings: Seq<ListingView>, index: int) -> Seq<ActionView> {
    let head = seq![
        report(
            enrich_progress(index as nat, listings.len()),
            enrich_message(index as nat, listings.len(), listings[index].title),
        ),
    ];
    if listings[index].item_id is Some {
        head + seq![ActionView::Inspect(index as usize), ActionView::Pause(VISIT_PAUSE)]
    } else {
        head
    }
}

/// The steps of the enriching stage for the first `upto` listings.
pub open spec fn enrich_steps(listings: Seq<ListingView>, upto: nat) -> Seq<ActionView>
    decreases upto,
{
    if upto == 0 {
        seq![report(ENRICH_BASE, "🔍 Enriching listings with detailed information..."@)]
    } else {
        enrich_steps(listings, (upto - 1) as nat) + listing_steps(listings, upto - 1)
    }
}

/// The plan of the enriching stage.
pub open spec fn enrich_plan(listings: Seq<ListingView>) -> Seq<ActionView> {
    enrich_steps(listings, listings.len()) + seq![ActionView::DeliverEnriched]
}

/// The actions that end a run once the enriched listings are in.
pub open spec fn finish_plan() -> Seq<ActionView> {
    seq![ActionView::Persist, report(PROGRESS_DONE, "✅ Scraping complete!"@)]
}

/// The plan that switches to the dashboard a moment after the run ended.
pub open spec fn dashboard_plan() -> Seq<ActionView> {
    seq![ActionView::Pause(FINISH_PAUSE), ActionView::Emit(AppEventView::ScrapingComplete)]
}

/// Builds the plan that switches to the dashboard.
pub fn dashboard_actions() -> (plan: Vec<Action>)
    ensures
        action_views(plan@) == dashboard_plan(),
{
    let mut plan: Vec<Action> = Vec::new();
    proof {
        assert(action_views(plan@) =~= Seq::empty());
    }
    push_action(&mut plan, Action::Pause(FINISH_PAUSE));
    push_action(&mut plan, Action::Emit(AppEvent::ScrapingComplete));
    proof {
        assert(action_views(plan@) =~= dashboard_plan());
    }
    plan
}

/// Builds an action that reports progress.
pub fn report_action(value: u32, message: &str) -> (action: Action)
    ensures
        action@ == report(value, message@),
{
    Action::Emit(AppEvent::SetProgress(value, String::from_str(message)))
}

/// Builds the plan of the connecting stage.
pub fn connect_actions() -> (plan: Vec<Action>)
    ensures
        action_views(plan@) == connect_plan(),
{
    let mut plan: Vec<Action> = Vec::new();
    proof {
        assert(action_views(plan@) =~= Seq::empty());
    }
    push_action(&mut plan, report_action(1000, "🚀 Starting geckodriver..."));
    push_action(&mut plan, Action::LaunchDriver);
    push_action(&mut plan, report_action(2000, "🔗 Connecting to fantoccini..."));
    push_action(&mut plan, Action::ConnectSession);
    push_action(&mut plan, report_action(3000, "🌐 Navigating to ebay.com..."));
    push_action(&mut plan, Action::Emit(AppEvent::ClientReady));
    proof {
        assert(action_views(plan@) =~= connect_plan());
    }
    plan
}

/// Builds the plan of the navigating stage.
pub fn navigate_actions(url: String) -> (plan: Vec<Action>)
    ensures
        action_views(plan@) == navigate_plan(url@),
{
    let mut plan: Vec<Action> = Vec::new();
    proof {
        assert(action_views(plan@) =~= Seq::empty());
    }
    push_action(&mut plan, Action::Navigate(url));
    push_action(&mut plan, Action::Emit(AppEvent::NavigationComplete));
    push_action(&mut plan, Action::WatchChallenge);
    proof {
        assert(action_views(plan@) =~= navigate_plan(url@));
    }
    plan
}

/// Builds the plan of the stage that reads the seller's figures.
pub fn stats_actions() -> (plan: Vec<Action>)
    ensures
        action_views(plan@) == stats_plan(),
{
    let mut plan: Vec<Action> = Vec::new();
    proof {
        assert(action_views(plan@) =~= Seq::empty());
    }
    push_action(&mut plan, report_action(4000, "📦 Scraping items sold..."));
    push_action(&mut plan, Action::Pause(STEP_PAUSE));
    push_action(&mut plan, Action::Read(Figure::ItemsSold));
    push_action(&mut plan, report_action(6000, "⭐ Scraping feedback score..."));
    push_action(&mut plan, Action::Pause(STEP_PAUSE));
    push_action(&mut plan, Action::Read(Figure::Feedback));
    push_action(&mut plan, report_action(8000, "👥 Scraping follower count..."));
    push_action(&mut plan, Action::Pause(STEP_PAUSE));
    push_action(&mut plan, Action::Read(Figure::Followers));
    push_action(&mut plan, Action::Emit(AppEvent::ClickSeeAll));
    proof {
        assert(action_views(plan@) =~= stats_plan());
    }
    plan
}

/// Builds the plan of the stage that opens the full listing index.
pub fn expand_actions() -> (plan: Vec<Action>)
    ensures
        action_views(plan@) == expand_plan(),
{
    let mut plan: Vec<Action> = Vec::new();
    proof {
        assert(action_views(plan@) =~= Seq::empty());
    }
    push_action(&mut plan, report_action(9000, "🖱️ Clicking 'See All' button..."));
    push_action(&mut plan, Action::Pause(STEP_PAUSE));
    push_action(&mut plan, Action::PressSeeAll);
    push_action(&mut plan, Action::Emit(AppEvent::ExtractListings));
    proof {
        assert(action_views(plan@) =~= expand_plan());
    }
    plan
}

/// Builds the plan of the stage that reads the listing index.
pub fn extract_actions() -> (plan: Vec<Action>)
    ensures
        action_views(plan@) == extract_plan(),
{
    let mut plan: Vec<Action> = Vec::new();
    proof {
        assert(action_views(plan@) =~= Seq::empty());
    }
    push_action(&mut plan, report_action(9500, "📋 Scraping listings..."));
    push_action(&mut plan, Action::Pause(STEP_PAUSE));
    push_action(&mut plan, Action::ReadListings);
    proof {
        assert(action_views(plan@) =~= extract_plan());
    }
    plan
}

/// Progress when the listing at `index` of `total` is taken up.
pub fn enrich_progress_at(index: usize, total: usize) -> (value: u32)
    requires
        index < total,
    ensures
        value == enrich_progress(index as nat, total as nat),
        ENRICH_BASE <= value < ENRICH_BASE + ENRICH_SPAN,
{
    let share: u128 = (ENRICH_SPAN as u128 * index as u128) / (total as u128);
    proof {
        assert((ENRICH_SPAN * index) / (total as int) < ENRICH_SPAN) by (nonlinear_arith)
            requires
                0 <= index < total,
        ;
        assert(0 <= (ENRICH_SPAN * index) / (total as int)) by (nonlinear_arith)
            requires
                0 <= index < total,
        ;
    }
    ENRICH_BASE + share as u32
}

/// Status message when the listing at `index` of `total` is taken up.
pub fn enrich_message_at(index: usize, total: usize, title: &str) -> (message: String)
    requires
        index < total,
    ensures
        message@ == enrich_message(index as nat, total as nat, title@),
{
    let position = decimal_string(index as u64 + 1);
    let count = decimal_string(total as u64);
    let shown = prefix_of(title, TITLE_SHOWN);
    String::from_str("🔍 Processing listing ").concat(position.as_str()).concat("/").concat(
        count.as_str(),
    ).concat(": ").concat(shown.as_str())
}

/// Builds the plan of the enriching stage.
pub fn enrich_actions(listings: &Vec<Listing>) -> (plan: Vec<Action>)
    ensures
        action_views(plan@) == enrich_plan(listing_views(listings@)),
{
    let total = listings.len();
    let ghost all = listing_views(listings@);
    let mut plan: Vec<Action> = Vec::new();
    proof {
        assert(action_views(plan@) =~= Seq::empty());
    }
    push_action(
        &mut plan,
        report_action(ENRICH_BASE, "🔍 Enriching listings with detailed information..."),
    );
    proof {
        assert(action_views(plan@) =~= enrich_steps(all, 0));
    }
    let mut index: usize = 0;
    while index < total
        invariant
            index <= total == listings.len(),
            all == listing_views(listings@),
            action_views(plan@) == enrich_steps(all, index as nat),
        decreases total - index,
    {
        let ghost before = action_views(plan@);
        let listing = &listings[index];
        proof {
            assert(all[index as int] == listing@);
        }
        let value = enrich_progress_at(index, total);
        let message = enrich_message_at(index, total, listing.title.as_str());
        push_action(&mut plan, Action::Emit(AppEvent::SetProgress(value, message)));
        if listing.item_id.is_some() {
            push_action(&mut plan, Action::Inspect(index));
            push_action(&mut plan, Action::Pause(VISIT_PAUSE));
        }
        proof {
            assert(action_views(plan@) =~= before + listing_steps(all, index as int));
        }
        index += 1;
    }
    push_action(&mut plan, Action::DeliverEnriched);
    proof {
        assert(action_views(plan@) =~= enrich_plan(all));
    }
    plan
}

/// The progress values that a plan reports, in order.
pub open spec fn progress_of(plan: Seq<ActionView>) -> Seq<u32>
    decreases plan.len(),
{
    if plan.len() == 0 {
        Seq::empty()
    } else {
        let before = progress_of(plan.drop_last());
        match plan.last() {
            ActionView::Emit(AppEventView::SetProgress(value, _)) => before.push(value),
            _ => before,
        }
    }
}

/// No value is smaller than one before it.
pub open spec fn non_decreasing(values: Seq<u32>) -> bool {
    forall|i: int, j: int| 0 <= i <= j < values.len() ==> values[i] <= values[j]
}

/// The values do not decrease and lie between `lo` and `hi`.
pub open spec fn rising_within(values: Seq<u32>, lo: int, hi: int) -> bool {
    &&& non_decreasing(values)
    &&& forall|i: int| 0 <= i < values.len() ==> lo <= #[trigger] values[i] <= hi
}

/// The plans of one successful run, in the order of its stages.
pub open spec fn run_plan(url: Seq<char>, listings: Seq<ListingView>) -> Seq<ActionView> {
    connect_plan() + navigate_plan(url) + stats_plan() + expand_plan() + extract_plan()
        + enrich_plan(listings) + finish_plan()
}

/// What a plan reports once an action is added at its end.
pub proof fn lemma_progress_push(plan: Seq<ActionView>, action: ActionView)
    ensures
        progress_of(plan.push(action)) == match action {
            ActionView::Emit(AppEventView::SetProgress(value, _)) => progress_of(plan).push(value),
            _ => progress_of(plan),
        },
{
    assert(plan.push(action).drop_last() =~= plan);
}

/// Two plans in a row report what the first reports, then what the second
/// reports.
pub proof fn lemma_progress_concat(first: Seq<ActionView>, second: Seq<ActionView>)
    ensures
        progress_of(first + second) == progress_of(first) + progress_of(second),
    decreases second.len(),
{
    if second.len() == 0 {
        assert(first + second =~= first);
        assert(progress_of(first) + progress_of(second) =~= progress_of(first));
    } else {
        lemma_progress_concat(first, second.drop_last());
        assert((first + second).drop_last() =~= first + second.drop_last());
        assert((first + second).last() == second.last());
        let before = progress_of(second.drop_last());
        match second.last() {
            ActionView::Emit(AppEventView::SetProgress(value, _)) => {
                assert((progress_of(first) + before).push(value) =~= progress_of(first)
                    + before.push(value));
            },
            _ => {},
        }
    }
}

/// Rising values, followed by rising values that start no lower than the
/// first end, rise as a whole.
pub proof fn lemma_rising_concat(first: Seq<u32>, second: Seq<u32>, lo: int, mid: int, hi: int)
    requires
        rising_within(first, lo, mid),
        rising_within(second, mid, hi),
        lo <= mid <= hi,
    ensures
        rising_within(first + second, lo, hi),
{
    let all = first + second;
    assert forall|i: int, j: int| 0 <= i <= j < all.len() implies all[i] <= all[j] by {
        if j < first.len() {
            assert(all[i] == first[i] && all[j] == first[j]);
        } else if i < first.len() {
            assert(all[i] == first[i] && all[j] == second[j - first.len()]);
        } else {
            assert(all[i] == second[i - first.len()] && all[j] == second[j - first.len()]);
        }
    }
    assert forall|i: int| 0 <= i < all.len() implies lo <= #[trigger] all[i] <= hi by {
        if i < first.len() {
            assert(all[i] == first[i]);
        } else {
            assert(all[i] == second[i - first.len()]);
        }
    }
}

/// The progress reported for a listing is no lower than that for the one
/// before it, and stays inside the share of the enriching stage.
pub proof fn lemma_enrich_progress(index: nat, total: nat)
    requires
        index < total,
    ensures
        ENRICH_BASE <= enrich_progress(index, total) < ENRICH_BASE + ENRICH_SPAN,
        index > 0 ==> enrich_progress((index - 1) as nat, total) <= enrich_progress(index, total),
{
    let t = total as int;
    assert(0 <= (ENRICH_SPAN * index) / t < ENRICH_SPAN) by (nonlinear_arith)
        requires
            0 <= index < t,
    ;
    if index > 0 {
        assert((ENRICH_SPAN * (index - 1)) / t <= (ENRICH_SPAN * index) / t
            && 0 <= (ENRICH_SPAN * (index - 1)) / t) by (nonlinear_arith)
            requires
                0 < index < t,
        ;
    }
}

/// What the steps of the enriching stage report rises from the stage's base
/// to the progress of the last listing taken up.
pub proof fn lemma_enrich_steps_rise(listings: Seq<ListingView>, upto: nat)
    requires
        upto <= listings.len(),
    ensures
        rising_within(
            progress_of(enrich_steps(listings, upto)),
            ENRICH_BASE as int,
            if upto == 0 {
                ENRICH_BASE as int
            } else {
                enrich_progress((upto - 1) as nat, listings.len()) as int
            },
        ),
    decreases upto,
{
    let base = ENRICH_BASE as int;
    if upto == 0 {
        let first = report(ENRICH_BASE, "🔍 Enriching listings with detailed information..."@);
        assert(enrich_steps(listings, 0) =~= Seq::<ActionView>::empty().push(first));
        lemma_progress_push(Seq::empty(), first);
        assert(progress_of(Seq::<ActionView>::empty()) =~= Seq::<u32>::empty());
        assert(progress_of(enrich_steps(listings, 0)) =~= seq![ENRICH_BASE]);
    } else {
        let index = (upto - 1) as nat;
        let total = listings.len();
        lemma_enrich_steps_rise(listings, index);
        lemma_enrich_progress(index, total);
        if index > 0 {
            lemma_enrich_progress((index - 1) as nat, total);
        }
        let value = enrich_progress(index, total);
        let head = report(value, enrich_message(index, total, listings[index as int].title));
        let steps = listing_steps(listings, index as int);
        let none = Seq::<ActionView>::empty();
        assert(progress_of(none) =~= Seq::<u32>::empty());
        lemma_progress_push(none, head);
        if listings[index as int].item_id is Some {
            let inspect = ActionView::Inspect(index as usize);
            let pause = ActionView::Pause(VISIT_PAUSE);
            lemma_progress_push(none.push(head), inspect);
            lemma_progress_push(none.push(head).push(inspect), pause);
            assert(steps =~= none.push(head).push(inspect).push(pause));
        } else {
            assert(steps =~= none.push(head));
        }
        assert(progress_of(steps) =~= seq![value]);
        let mid = if index == 0 {
            base
        } else {
            enrich_progress((index - 1) as nat, total) as int
        };
        assert(rising_within(progress_of(steps), mid, value as int));
        lemma_progress_concat(enrich_steps(listings, index), steps);
        lemma_rising_concat(
            progress_of(enrich_steps(listings, index)),
            progress_of(steps),
            base,
            mid,
            value as int,
        );
    }
}

/// Across one successful run the progress that the stages report never
/// decreases, and the last report is that of a finished run.
pub proof fn law_progress_never_decreases(url: Seq<char>, listings: Seq<ListingView>)
    ensures
        non_decreasing(progress_of(run_plan(url, listings))),
        progress_of(run_plan(url, listings)).len() > 0,
        progress_of(run_plan(url, listings)).last() == PROGRESS_DONE,
{
    let none = Seq::<ActionView>::empty();
    assert(progress_of(none) =~= Seq::<u32>::empty());
    let connect = connect_plan();
    let navigate = navigate_plan(url);
    let stats = stats_plan();
    let expand = expand_plan();
    let extract = extract_plan();
    let enrich = enrich_plan(listings);
    let finish = finish_plan();

    assert(progress_of(connect) =~= seq![1000u32, 2000u32, 3000u32]) by {
        let upto0 = none.push(connect[0]);
        let upto1 = upto0.push(connect[1]);
        let upto2 = upto1.push(connect[2]);
        let upto3 = upto2.push(connect[3]);
        let upto4 = upto3.push(connect[4]);
        let upto5 = upto4.push(connect[5]);
        lemma_progress_push(none, connect[0]);
        lemma_progress_push(upto0, connect[1]);
        lemma_progress_push(upto1, connect[2]);
        lemma_progress_push(upto2, connect[3]);
        lemma_progress_push(upto3, connect[4]);
        lemma_progress_push(upto4, connect[5]);
        assert(connect =~= upto5);
    }
    assert(progress_of(navigate) =~= Seq::<u32>::empty()) by {
        let upto0 = none.push(navigate[0]);
        let upto1 = upto0.push(navigate[1]);
        let upto2 = upto1.push(navigate[2]);
        lemma_progress_push(none, navigate[0]);
        lemma_progress_push(upto0, navigate[1]);
        lemma_progress_push(upto1, navigate[2]);
        assert(navigate =~= upto2);
    }
    assert(progress_of(stats) =~= seq![4000u32, 6000u32, 8000u32]) by {
        let upto0 = none.push(stats[0]);
        let upto1 = upto0.push(stats[1]);
        let upto2 = upto1.push(stats[2]);
        let upto3 = upto2.push(stats[3]);
        let upto4 = upto3.push(stats[4]);
        let upto5 = upto4.push(stats[5]);
        let upto6 = upto5.push(stats[6]);
        let upto7 = upto6.push(stats[7]);
        let upto8 = upto7.push(stats[8]);
        let upto9 = upto8.push(stats[9]);
        lemma_progress_push(none, stats[0]);
        lemma_progress_push(upto0, stats[1]);
        lemma_progress_push(upto1, stats[2]);
        lemma_progress_push(upto2, stats[3]);
        lemma_progress_push(upto3, stats[4]);
        lemma_progress_push(upto4, stats[5]);
        lemma_progress_push(upto5, stats[6]);
        lemma_progress_push(upto6, stats[7]);
        lemma_progress_push(upto7, stats[8]);
        lemma_progress_push(upto8, stats[9]);
        assert(stats =~= upto9);
    }
    assert(progress_of(expand) =~= seq![9000u32]) by {
        let upto0 = none.push(expand[0]);
        let upto1 = upto0.push(expand[1]);
        let upto2 = upto1.push(expand[2]);
        let upto3 = upto2.push(expand[3]);
        lemma_progress_push(none, expand[0]);
        lemma_progress_push(upto0, expand[1]);
        lemma_progress_push(upto1, expand[2]);
        lemma_progress_push(upto2, expand[3]);
        assert(expand =~= upto3);
    }
    assert(progress_of(extract) =~= seq![9500u32]) by {
        let upto0 = none.push(extract[0]);
        let upto1 = upto0.push(extract[1]);
        let upto2 = upto1.push(extract[2]);
        lemma_progress_push(none, extract[0]);
        lemma_progress_push(upto0, extract[1]);
        lemma_progress_push(upto1, extract[2]);
        assert(extract =~= upto2);
    }
    assert(progress_of(finish) =~= seq![PROGRESS_DONE]) by {
        let upto0 = none.push(finish[0]);
        let upto1 = upto0.push(finish[1]);
        lemma_progress_push(none, finish[0]);
        lemma_progress_push(upto0, finish[1]);
        assert(finish =~= upto1);
    }
    let top = (ENRICH_BASE + ENRICH_SPAN) as int;
    assert(rising_within(progress_of(enrich), ENRICH_BASE as int, top)) by {
        let steps = enrich_steps(listings, listings.len());
        lemma_enrich_steps_rise(listings, listings.len());
        if listings.len() > 0 {
            lemma_enrich_progress((listings.len() - 1) as nat, listings.len());
        }
        lemma_progress_push(steps, ActionView::DeliverEnriched);
        assert(enrich =~= steps.push(ActionView::DeliverEnriched));
    }
    let a1 = connect + navigate;
    lemma_progress_concat(connect, navigate);
    assert(progress_of(a1) =~= progress_of(connect));
    let a2 = a1 + stats;
    lemma_progress_concat(a1, stats);
    lemma_rising_concat(progress_of(a1), progress_of(stats), 1000, 3000, 8000);
    let a3 = a2 + expand;
    lemma_progress_concat(a2, expand);
    lemma_rising_concat(progress_of(a2), progress_of(expand), 1000, 8000, 9000);
    let a4 = a3 + extract;
    lemma_progress_concat(a3, extract);
    lemma_rising_concat(progress_of(a3), progress_of(extract), 1000, 9000, 9500);
    let a5 = a4 + enrich;
    lemma_progress_concat(a4, enrich);
    lemma_rising_concat(progress_of(a4), progress_of(enrich), 1000, 9500, top);
    let a6 = a5 + finish;
    lemma_progress_concat(a5, finish);
    lemma_rising_concat(progress_of(a5), progress_of(finish), 1000, top, PROGRESS_DONE as int);
    assert(a6 == run_plan(url, listings));
    assert(progress_of(a6).last() == progress_of(finish).last());
}

} // verus!
