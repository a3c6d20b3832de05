use ebay::app::App;
use ebay::listing::Listing;
use ebay::listing::KEY_COLUMN;
use ebay::store::{
    header, load_store, merge_listings, render_store, same_row, save_listings, upsert_row,
    StoreError,
};

const HEADER_LINE: &str = "title,price,shipping,condition,watchers,seller,seller_feedback,buy_it_now,accepts_offers,location,quantity_available,is_new_listing,item_id,url,notes,item_specifics,description\n";

fn item(id: &str, title: &str, price: &str) -> Listing {
    let mut listing = Listing::default();
    listing.title = title.to_string();
    listing.price = price.to_string();
    listing.item_id = Some(id.to_string());
    listing
}

fn line(fields: &[&str]) -> String {
    format!("{}\n", fields.join(","))
}

fn load(text: &str) -> Result<Vec<Vec<String>>, StoreError> {
    load_store(text, &header(), KEY_COLUMN)
}

fn plain_row(id: &str, title: &str, price: &str) -> String {
    line(&[
        title, price, "", "", "", "", "", "false", "false", "", "", "false", id, "", "", "", "",
    ])
}

#[test]
fn header_names_the_seventeen_columns() {
    let names = header();
    assert_eq!(names.len(), 17);
    assert_eq!(names[0], "title");
    assert_eq!(names[12], "item_id");
    assert_eq!(names[16], "description");
    assert_eq!(format!("{}\n", names.join(",")), HEADER_LINE);
}

#[test]
fn row_of_a_full_listing() {
    let listing = Listing {
        title: "Lamp".to_string(),
        price: "$19.99".to_string(),
        shipping: Some("Free shipping".to_string()),
        condition: Some("Used".to_string()),
        watchers: Some(1204),
        seller: Some("seller123".to_string()),
        seller_feedback: Some("99% positive".to_string()),
        buy_it_now: true,
        accepts_offers: false,
        location: Some("From Ohio".to_string()),
        quantity_available: Some(0),
        is_new_listing: true,
        item_id: Some("111".to_string()),
        url: Some("https://www.ebay.com/itm/111".to_string()),
        notes: vec!["first".to_string(), "second".to_string(), "third".to_string()],
        item_specifics: vec!["Brand: Acme".to_string()],
        description: Some("A lamp".to_string()),
    };
    let row = listing.to_row();
    assert_eq!(
        row,
        vec![
            "Lamp",
            "$19.99",
            "Free shipping",
            "Used",
            "1204",
            "seller123",
            "99% positive",
            "true",
            "false",
            "From Ohio",
            "0",
            "true",
            "111",
            "https://www.ebay.com/itm/111",
            "first; second; third",
            "Brand: Acme",
            "A lamp",
        ]
    );
    assert_eq!(listing.key(), "111");
    assert!(listing.is_acceptable());
}

#[test]
fn row_of_a_blank_listing() {
    let listing = Listing::default();
    assert_eq!(
        listing.to_row(),
        vec!["", "", "", "", "", "", "", "false", "false", "", "", "false", "", "", "", "", ""]
    );
    assert_eq!(listing.key(), "");
    assert!(!listing.is_acceptable());
}

#[test]
fn counts_are_written_in_decimal() {
    let mut listing = Listing::default();
    listing.watchers = Some(4294967295);
    listing.quantity_available = Some(10);
    let row = listing.to_row();
    assert_eq!(row[4], "4294967295");
    assert_eq!(row[10], "10");
}

#[test]
fn new_store_holds_header_and_rows() {
    let text = save_listings(&vec![item("111", "Widget", "$10")], None).unwrap();
    assert_eq!(text, format!("{}{}", HEADER_LINE, plain_row("111", "Widget", "$10")));
}

#[test]
fn store_without_listings_is_just_the_header() {
    let text = save_listings(&vec![], None).unwrap();
    assert_eq!(text, HEADER_LINE);
    let again = save_listings(&vec![], Some(&text)).unwrap();
    assert_eq!(again, HEADER_LINE);
}

#[test]
fn merge_overwrites_same_id_and_adds_new_ones() {
    let existing = save_listings(&vec![item("111", "Widget", "$10")], None).unwrap();
    let merged = save_listings(
        &vec![item("111", "Widget", "$12"), item("222", "Gadget", "$5")],
        Some(&existing),
    )
    .unwrap();
    assert_eq!(
        merged,
        format!(
            "{}{}{}",
            HEADER_LINE,
            plain_row("111", "Widget", "$12"),
            plain_row("222", "Gadget", "$5")
        )
    );
    let rows = load(&merged).unwrap();
    assert_eq!(rows.len(), 2);
    assert_eq!(rows[0][12], "111");
    assert_eq!(rows[0][1], "$12");
    assert_eq!(rows[1][12], "222");
    assert_eq!(rows[1][1], "$5");
}

#[test]
fn merging_the_same_listing_twice_leaves_one_row() {
    let once = save_listings(&vec![item("111", "Widget", "$10")], None).unwrap();
    let twice = save_listings(&vec![item("111", "Widget", "$10")], Some(&once)).unwrap();
    assert_eq!(twice, once);
    assert_eq!(load(&twice).unwrap().len(), 1);
    let same_run =
        save_listings(&vec![item("111", "Widget", "$10"), item("111", "Widget", "$10")], None)
            .unwrap();
    assert_eq!(same_run, once);
}

#[test]
fn later_merge_wins_on_differing_fields() {
    let first = save_listings(&vec![item("111", "Widget", "$10")], None).unwrap();
    let second =
        save_listings(&vec![item("111", "Widget v2", "$8")], Some(&first)).unwrap();
    let rows = load(&second).unwrap();
    assert_eq!(rows.len(), 1);
    assert_eq!(rows[0][0], "Widget v2");
    assert_eq!(rows[0][1], "$8");
    assert_eq!(rows[0][12], "111");
}

#[test]
fn partial_run_drops_no_row() {
    let first = save_listings(
        &vec![item("1", "a", "$1"), item("2", "b", "$2"), item("3", "c", "$3")],
        None,
    )
    .unwrap();
    let second = save_listings(&vec![item("2", "b", "$9")], Some(&first)).unwrap();
    let rows = load(&second).unwrap();
    assert_eq!(rows.len(), 3);
    assert_eq!(rows[0][12], "1");
    assert_eq!(rows[1][12], "2");
    assert_eq!(rows[1][1], "$9");
    assert_eq!(rows[2][12], "3");
}

#[test]
fn listings_without_id_share_the_empty_key() {
    let mut first = Listing::default();
    first.title = "no id".to_string();
    first.price = "$1".to_string();
    let mut second = Listing::default();
    second.title = "no id either".to_string();
    second.price = "$2".to_string();
    let text = save_listings(&vec![first, second], None).unwrap();
    let rows = load(&text).unwrap();
    assert_eq!(rows.len(), 1);
    assert_eq!(rows[0][0], "no id either");
}

#[test]
fn fields_with_commas_quotes_and_line_breaks_survive() {
    let mut listing = item("7", "Lamp, \"antique\"\nbrass", "$1,000.00");
    listing.notes = vec!["a,b".to_string(), "c".to_string()];
    let text = save_listings(&vec![listing.clone()], None).unwrap();
    assert!(text.starts_with(HEADER_LINE));
    assert!(text.contains("\"Lamp, \"\"antique\"\"\nbrass\""));
    assert!(text.contains("\"$1,000.00\""));
    let rows = load(&text).unwrap();
    assert_eq!(rows.len(), 1);
    assert_eq!(rows[0], listing.to_row());
    assert_eq!(rows[0][14], "a,b; c");
}

#[test]
fn duplicate_rows_of_an_existing_store_collapse() {
    let text = format!(
        "{}{}{}{}",
        HEADER_LINE,
        plain_row("1", "old", "$1"),
        plain_row("2", "other", "$2"),
        plain_row("1", "new", "$3")
    );
    let rows = load(&text).unwrap();
    assert_eq!(rows.len(), 2);
    assert_eq!(rows[0][0], "new");
    assert_eq!(rows[1][0], "other");
}

#[test]
fn empty_text_is_an_empty_store() {
    assert_eq!(load("").unwrap().len(), 0);
    let text = save_listings(&vec![item("1", "a", "$1")], Some("")).unwrap();
    assert_eq!(text, format!("{}{}", HEADER_LINE, plain_row("1", "a", "$1")));
}

#[test]
fn records_of_unequal_length_are_malformed() {
    let text = format!("{}only,three,fields\n", HEADER_LINE);
    assert_eq!(load(&text), Err(StoreError::Malformed));
    assert_eq!(
        save_listings(&vec![item("1", "a", "$1")], Some(&text)),
        Err(StoreError::Malformed)
    );
    assert_eq!(load("a,b\nc\n"), Err(StoreError::Malformed));
}

#[test]
fn other_columns_are_a_wrong_header() {
    assert_eq!(load("title,item_id,price,views,watchers\na,1,$1,2,3\n"), Err(StoreError::WrongHeader));
    let shuffled = HEADER_LINE.replace("title,price", "price,title");
    assert_eq!(load(&shuffled), Err(StoreError::WrongHeader));
    assert_eq!(
        save_listings(&vec![], Some("a,b\nc,d\n")),
        Err(StoreError::WrongHeader)
    );
}

#[test]
fn upsert_replaces_in_place_or_appends() {
    let mut rows = vec![item("1", "a", "$1").to_row(), item("2", "b", "$2").to_row()];
    upsert_row(&mut rows, KEY_COLUMN, item("1", "a2", "$3").to_row());
    assert_eq!(rows.len(), 2);
    assert_eq!(rows[0], item("1", "a2", "$3").to_row());
    assert_eq!(rows[1], item("2", "b", "$2").to_row());
    upsert_row(&mut rows, KEY_COLUMN, item("3", "c", "$4").to_row());
    assert_eq!(rows.len(), 3);
    assert_eq!(rows[2], item("3", "c", "$4").to_row());
}

#[test]
fn merge_listings_writes_in_order() {
    let mut rows: Vec<Vec<String>> = Vec::new();
    merge_listings(
        &mut rows,
        &vec![item("b", "1", "$1"), item("a", "2", "$2"), item("b", "3", "$3")],
    );
    assert_eq!(rows, vec![item("b", "3", "$3").to_row(), item("a", "2", "$2").to_row()]);
    assert_eq!(
        render_store(&header(), &rows),
        format!("{}{}{}", HEADER_LINE, plain_row("b", "3", "$3"), plain_row("a", "2", "$2"))
    );
}

#[test]
fn same_row_compares_texts() {
    assert!(same_row(&header(), &header()));
    assert!(!same_row(&header(), &item("1", "a", "$1").to_row()));
    assert!(!same_row(&vec!["a".to_string()], &vec!["a".to_string(), "b".to_string()]));
    assert!(same_row(&vec![], &vec![]));
}

#[test]
fn state_without_listings_saves_nothing() {
    let app = App::new();
    assert_eq!(app.save_listings_to_csv(None), Ok(None));
    assert_eq!(app.save_listings_to_csv(Some("not,a\nstore\n")), Ok(None));
}

#[test]
fn state_with_listings_saves_the_merged_store() {
    let mut app = App::new();
    app.listings = vec![item("111", "Widget", "$12"), item("222", "Gadget", "$5")];
    let existing = save_listings(&vec![item("111", "Widget", "$10")], None).unwrap();
    let saved = app.save_listings_to_csv(Some(&existing)).unwrap().unwrap();
    assert_eq!(
        saved,
        format!(
            "{}{}{}",
            HEADER_LINE,
            plain_row("111", "Widget", "$12"),
            plain_row("222", "Gadget", "$5")
        )
    );
    assert_eq!(app.save_listings_to_csv(Some("a,b\nc\n")), Err(StoreError::Malformed));
}
