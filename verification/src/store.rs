//! The stores: tables with a header and one row per key, kept as text, into
//! which each run merges its rows.

use crate::listing::{listing_views, texts_of, Listing, ListingView, COLUMNS, KEY_COLUMN};
use vstd::prelude::*;
use vstd::string::StringExecFns;

verus! {

/// `csv::Error`, the error of a reader: nothing inside it is visible here.
#[verifier::external_type_specification]
#[verifier::external_body]
pub struct ExCsvError(csv::Error);

/// A row of the store, column by column.
pub type Row = Seq<Seq<char>>;

/// The text that `csv::Writer::write_record` writes for one record: its
/// fields, quoted where needed, with commas between them and a line end.
pub uninterp spec fn record_line(fields: Seq<Seq<char>>) -> Seq<char>;

/// The records that a `csv::Reader` without header row and with fixed record
/// length reads from a text, or `None` where it reports an error.
pub uninterp spec fn records_of(text: Seq<char>) -> Option<Seq<Row>>;

/// All records have as many fields as the first.
pub open spec fn same_width(records: Seq<Row>) -> bool {
    forall|i: int| 0 <= i < records.len() ==> (#[trigger] records[i]).len() == records[0].len()
}

/// Why a store could not be read.
#[derive(Debug, Clone, Copy, PartialEq, Eq, Structural)]
pub enum StoreError {
    /// The text is no table of records of one length.
    Malformed,
    /// The first record does not name the columns of the store.
    WrongHeader,
}

/// The rows that a vector of rows holds.
pub open spec fn rows_of(rows: Seq<Vec<String>>) -> Seq<Row> {
    rows.map_values(|row: Vec<String>| texts_of(row@))
}

/// The names of the columns, in order.
pub open spec fn header_row() -> Row {
    seq![
        "title"@,
        "price"@,
        "shipping"@,
        "condition"@,
        "watchers"@,
        "seller"@,
        "seller_feedback"@,
        "buy_it_now"@,
        "accepts_offers"@,
        "location"@,
        "quantity_available"@,
        "is_new_listing"@,
        "item_id"@,
        "url"@,
        "notes"@,
        "item_specifics"@,
        "description"@,
    ]
}

/// Every row has `width` fields.
pub open spec fn well_shaped(rows: Seq<Row>, width: nat) -> bool {
    forall|i: int| 0 <= i < rows.len() ==> (#[trigger] rows[i]).len() == width
}

/// The key of a row: its field in the key column.
pub open spec fn key_of(row: Row, column: int) -> Seq<char> {
    row[column]
}

/// The first position at or after `from` whose row has the key, or the
/// number of rows where there is none.
pub open spec fn key_position(rows: Seq<Row>, column: int, key: Seq<char>, from: int) -> int
    decreases rows.len() - from,
{
    if 0 <= from < rows.len() && key_of(rows[from], column) != key {
        key_position(rows, column, key, from + 1)
    } else {
        from
    }
}

/// No two rows have the same key.
pub open spec fn distinct_keys(rows: Seq<Row>, column: int) -> bool {
    forall|i: int, j: int|
        0 <= i < j < rows.len() ==> key_of(#[trigger] rows[i], column) != key_of(
            #[trigger] rows[j],
            column,
        )
}

/// Whether a row of the store has the key.
pub open spec fn has_key(rows: Seq<Row>, column: int, key: Seq<char>) -> bool {
    exists|i: int| 0 <= i < rows.len() && key_of(#[trigger] rows[i], column) == key
}

/// The number of rows that have the key.
pub open spec fn count_key(rows: Seq<Row>, column: int, key: Seq<char>) -> nat
    decreases rows.len(),
{
    if rows.len() == 0 {
        0
    } else {
        count_key(rows.drop_last(), column, key) + if key_of(rows.last(), column) == key {
            1nat
        } else {
            0nat
        }
    }
}

/// The store with a row written into it: in place of the row with the same
/// key, or at the end where no row has that key.
pub open spec fn upsert(rows: Seq<Row>, column: int, row: Row) -> Seq<Row> {
    let at = key_position(rows, column, key_of(row, column), 0);
    if at < rows.len() {
        rows.update(at, row)
    } else {
        rows.push(row)
    }
}

/// The store with the rows written into it, one after the other.
pub open spec fn merged(rows: Seq<Row>, column: int, more: Seq<Row>) -> Seq<Row>
    decreases more.len(),
{
    if more.len() == 0 {
        rows
    } else {
        upsert(merged(rows, column, more.drop_last()), column, more.last())
    }
}

/// The rows of a sequence of listings, in order.
pub open spec fn listing_rows(listings: Seq<ListingView>) -> Seq<Row> {
    listings.map_values(|listing: ListingView| listing.row())
}

/// The text of the rows, each as one record, in order.
pub open spec fn lines_of(rows: Seq<Row>) -> Seq<char>
    decreases rows.len(),
{
    if rows.len() == 0 {
        Seq::empty()
    } else {
        lines_of(rows.drop_last()) + record_line(rows.last())
    }
}

/// The text of a store: the header, then the rows.
pub open spec fn store_text(header: Row, rows: Seq<Row>) -> Seq<char> {
    record_line(header) + lines_of(rows)
}

/// The rows of a store text: the records after the header, written one
/// after the other into an empty store.
pub open spec fn loaded(records: Seq<Row>, column: int) -> Seq<Row> {
    merged(Seq::empty(), column, records.subrange(1, records.len() as int))
}

/// What reading a store text gives: its rows, or why it cannot be read. A
/// text without records is a store without rows.
pub open spec fn read_store(text: Seq<char>, header: Row, column: int) -> Result<
    Seq<Row>,
    StoreError,
> {
    match records_of(text) {
        None => Err(StoreError::Malformed),
        Some(records) => if records.len() == 0 {
            Ok(Seq::empty())
        } else if records[0] != header {
            Err(StoreError::WrongHeader)
        } else {
            Ok(loaded(records, column))
        },
    }
}

/// What merging rows into a store gives: the text of the new store, or why
/// the old one cannot be read.
pub open spec fn merge_outcome(
    existing: Option<Seq<char>>,
    header: Row,
    column: int,
    more: Seq<Row>,
) -> Result<Seq<char>, StoreError> {
    let before = match existing {
        Some(text) => read_store(text, header, column),
        None => Ok(Seq::empty()),
    };
    match before {
        Ok(rows) => Ok(store_text(header, merged(rows, column, more))),
        Err(error) => Err(error),
    }
}

/// What merging listings into the listing store gives.
pub open spec fn listing_merge_outcome(
    existing: Option<Seq<char>>,
    listings: Seq<ListingView>,
) -> Result<Seq<char>, StoreError> {
    merge_outcome(existing, header_row(), KEY_COLUMN as int, listing_rows(listings))
}

/// Writes one record with `csv::Writer::write_record` into a writer over a
/// byte vector and returns what was written; the text depends on the fields
/// alone.
#[verifier::external_body]
pub(crate) fn encode_record(fields: &Vec<String>) -> (line: String)
    ensures
        line@ == record_line(texts_of(fields@)),
{
    let mut writer = csv::Writer::from_writer(Vec::new());
    let _ = writer.write_record(fields.iter());
    String::from_utf8(writer.into_inner().unwrap_or_default()).unwrap_or_default()
}

/// Reads all records of a text with a `csv::Reader` built without header
/// row; the reader's first error, if any, is returned. The reader is not
/// flexible: it reports an error where a record has another number of
/// fields than the one before it, so the records that it gives are of one
/// length.
#[verifier::external_body]
pub(crate) fn decode_records(text: &str) -> (records: Result<Vec<Vec<String>>, csv::Error>)
    ensures
        match records {
            Ok(rows) => records_of(text@) == Some(rows_of(rows@)) && same_width(rows_of(rows@)),
            Err(_) => records_of(text@) is None,
        },
{
    csv::ReaderBuilder::new().has_headers(false).from_reader(text.as_bytes()).records().map(
        |record| record.map(|fields| fields.iter().map(String::from).collect()),
    ).collect()
}

/// Builds the row of column names.
pub fn header() -> (row: Vec<String>)
    ensures
        texts_of(row@) == header_row(),
        row.len() == COLUMNS,
{
    let mut row: Vec<String> = Vec::new();
    row.push(String::from_str("title"));
    row.push(String::from_str("price"));
    row.push(String::from_str("shipping"));
    row.push(String::from_str("condition"));
    row.push(String::from_str("watchers"));
    row.push(String::from_str("seller"));
    row.push(String::from_str("seller_feedback"));
    row.push(String::from_str("buy_it_now"));
    row.push(String::from_str("accepts_offers"));
    row.push(String::from_str("location"));
    row.push(String::from_str("quantity_available"));
    row.push(String::from_str("is_new_listing"));
    row.push(String::from_str("item_id"));
    row.push(String::from_str("url"));
    row.push(String::from_str("notes"));
    row.push(String::from_str("item_specifics"));
    row.push(String::from_str("description"));
    proof {
        assert(texts_of(row@) =~= header_row());
    }
    row
}

/// Whether two rows hold the same texts.
pub fn same_row(a: &Vec<String>, b: &Vec<String>) -> (same: bool)
    ensures
        same == (texts_of(a@) == texts_of(b@)),
{
    if a.len() != b.len() {
        proof {
            assert(texts_of(a@).len() != texts_of(b@).len());
        }
        return false;
    }
    let mut i: usize = 0;
    while i < a.len()
        invariant
            i <= a.len() == b.len(),
            forall|k: int| 0 <= k < i ==> a@[k]@ == b@[k]@,
        decreases a.len() - i,
    {
        if a[i] != b[i] {
            proof {
                assert(texts_of(a@)[i as int] != texts_of(b@)[i as int]);
            }
            return false;
        }
        i += 1;
    }
    proof {
        assert(texts_of(a@) =~= texts_of(b@));
    }
    true
}

/// Writes a row into the store: in place of the row with the same key, or
/// at the end where no row has that key.
pub fn upsert_row(rows: &mut Vec<Vec<String>>, column: usize, row: Vec<String>)
    requires
        well_shaped(rows_of(old(rows)@), row.len() as nat),
        column < row.len(),
    ensures
        rows_of(final(rows)@) == upsert(rows_of(old(rows)@), column as int, texts_of(row@)),
        well_shaped(rows_of(final(rows)@), row.len() as nat),
{
    let ghost before = rows_of(rows@);
    let ghost key = key_of(texts_of(row@), column as int);
    let mut at: usize = 0;
    let mut found = false;
    while at < rows.len() && !found
        invariant
            at <= rows.len(),
            found ==> at < rows.len() && key_of(before[at as int], column as int) == key,
            rows@ == old(rows)@,
            before == rows_of(rows@),
            well_shaped(before, row.len() as nat),
            column < row.len(),
            key == key_of(texts_of(row@), column as int),
            key_position(before, column as int, key, 0) == key_position(
                before,
                column as int,
                key,
                at as int,
            ),
        decreases rows.len() - at + if found { 0int } else { 1int },
    {
        proof {
            assert(before[at as int] == texts_of(rows@[at as int]@));
            assert(before[at as int].len() == row.len());
        }
        if rows[at][column] == row[column] {
            found = true;
        } else {
            at += 1;
        }
    }
    if at < rows.len() {
        proof {
            assert(rows_of(rows@.update(at as int, row)) =~= before.update(
                at as int,
                texts_of(row@),
            ));
        }
        rows.set(at, row);
    } else {
        proof {
            assert(rows_of(rows@.push(row)) =~= before.push(texts_of(row@)));
        }
        rows.push(row);
    }
}

/// Writes the rows of the listings into the listing store, one after the
/// other.
pub fn merge_listings(rows: &mut Vec<Vec<String>>, listings: &Vec<Listing>)
    requires
        well_shaped(rows_of(old(rows)@), COLUMNS as nat),
    ensures
        rows_of(final(rows)@) == merged(
            rows_of(old(rows)@),
            KEY_COLUMN as int,
            listing_rows(listing_views(listings@)),
        ),
        well_shaped(rows_of(final(rows)@), COLUMNS as nat),
{
    let ghost more = listing_rows(listing_views(listings@));
    let mut i: usize = 0;
    proof {
        assert(more.subrange(0, 0) =~= Seq::empty());
    }
    while i < listings.len()
        invariant
            i <= listings.len(),
            more == listing_rows(listing_views(listings@)),
            well_shaped(rows_of(rows@), COLUMNS as nat),
            rows_of(rows@) == merged(
                rows_of(old(rows)@),
                KEY_COLUMN as int,
                more.subrange(0, i as int),
            ),
        decreases listings.len() - i,
    {
        proof {
            let upto = more.subrange(0, i + 1);
            assert(upto.drop_last() =~= more.subrange(0, i as int));
            assert(upto.last() == listings@[i as int]@.row());
        }
        upsert_row(rows, KEY_COLUMN, listings[i].to_row());
        i += 1;
    }
    proof {
        assert(more.subrange(0, listings.len() as int) =~= more);
    }
}

/// The text of a store with the given header and rows.
pub fn render_store(header: &Vec<String>, rows: &Vec<Vec<String>>) -> (text: String)
    ensures
        text@ == store_text(texts_of(header@), rows_of(rows@)),
{
    let ghost all = rows_of(rows@);
    let ghost head = record_line(texts_of(header@));
    let mut text = encode_record(header);
    proof {
        assert(all.subrange(0, 0) =~= Seq::empty());
        assert(text@ + lines_of(all.subrange(0, 0)) =~= text@);
    }
    let mut i: usize = 0;
    while i < rows.len()
        invariant
            i <= rows.len(),
            all == rows_of(rows@),
            text@ == head + lines_of(all.subrange(0, i as int)),
        decreases rows.len() - i,
    {
        proof {
            let upto = all.subrange(0, i + 1);
            assert(upto.drop_last() =~= all.subrange(0, i as int));
            assert(upto.last() == texts_of(rows@[i as int]@));
        }
        let line = encode_record(&rows[i]);
        text.append(line.as_str());
        proof {
            assert(text@ =~= head + lines_of(all.subrange(0, i + 1)));
        }
        i += 1;
    }
    proof {
        assert(all.subrange(0, rows.len() as int) =~= all);
    }
    text
}

/// Reads the rows of a store from its text: the first record has to be the
/// header; the others are written into an empty store one after the other,
/// so that of two records with one key the later one stays.
pub fn load_store(text: &str, header: &Vec<String>, column: usize) -> (outcome: Result<
    Vec<Vec<String>>,
    StoreError,
>)
    requires
        column < header.len(),
    ensures
        match outcome {
            Ok(rows) => read_store(text@, texts_of(header@), column as int) == Ok::<
                Seq<Row>,
                StoreError,
            >(rows_of(rows@)) && well_shaped(rows_of(rows@), header.len() as nat),
            Err(error) => read_store(text@, texts_of(header@), column as int) == Err::<
                Seq<Row>,
                StoreError,
            >(error),
        },
{
    let records = match decode_records(text) {
        Ok(records) => records,
        Err(_) => {
            return Err(StoreError::Malformed);
        },
    };
    let mut rows: Vec<Vec<String>> = Vec::new();
    proof {
        assert(rows_of(rows@) =~= Seq::empty());
    }
    if records.len() == 0 {
        return Ok(rows);
    }
    proof {
        assert(rows_of(records@)[0] == texts_of(records@[0]@));
    }
    if !same_row(&records[0], header) {
        return Err(StoreError::WrongHeader);
    }
    let ghost all = rows_of(records@);
    let ghost width = header.len() as nat;
    proof {
        assert(all[0].len() == width);
    }
    let ghost body = all.subrange(1, all.len() as int);
    let total = records.len();
    proof {
        assert(body.subrange(0, 0) =~= Seq::empty());
    }
    let mut index: usize = 0;
    for record in it: records
        invariant
            index == it.index(),
            it.seq().len() == total,
            all == rows_of(it.seq()),
            well_shaped(all, width),
            column < width,
            body == all.subrange(1, all.len() as int),
            well_shaped(rows_of(rows@), width),
            index == 0 ==> rows_of(rows@) == Seq::<Row>::empty(),
            index > 0 ==> rows_of(rows@) == merged(
                Seq::empty(),
                column as int,
                body.subrange(0, index - 1),
            ),
    {
        proof {
            assert(all[index as int] == texts_of(record@));
            assert(all[index as int].len() == width);
        }
        if index > 0 {
            proof {
                let upto = body.subrange(0, index as int);
                assert(upto.drop_last() =~= body.subrange(0, index - 1));
                assert(upto.last() == texts_of(record@));
            }
            upsert_row(&mut rows, column, record);
        } else {
            proof {
                assert(body.subrange(0, 0) =~= Seq::empty());
            }
        }
        index += 1;
    }
    proof {
        assert(body.subrange(0, total - 1) =~= body);
    }
    Ok(rows)
}

/// Merges newly scraped listings into the listing store and returns the
/// text of the whole store, to be written in place of the old one.
/// `existing` is the text of the store as it stands, or `None` where there
/// is none yet.
pub fn save_listings(new_listings: &Vec<Listing>, existing: Option<&str>) -> (outcome: Result<
    String,
    StoreError,
>)
    ensures
        match outcome {
            Ok(text) => listing_merge_outcome(text_before(existing), listing_views(new_listings@))
                == Ok::<Seq<char>, StoreError>(text@),
            Err(error) => listing_merge_outcome(
                text_before(existing),
                listing_views(new_listings@),
            ) == Err::<Seq<char>, StoreError>(error),
        },
{
    let names = header();
    let mut rows = match existing {
        Some(text) => match load_store(text, &names, KEY_COLUMN) {
            Ok(rows) => rows,
            Err(error) => {
                return Err(error);
            },
        },
        None => {
            let rows: Vec<Vec<String>> = Vec::new();
            proof {
                assert(rows_of(rows@) =~= Seq::empty());
            }
            rows
        },
    };
    merge_listings(&mut rows, new_listings);
    Ok(render_store(&names, &rows))
}

/// The text of the store as it stands.
pub open spec fn text_before(existing: Option<&str>) -> Option<Seq<char>> {
    match existing {
        Some(text) => Some(text@),
        None => None,
    }
}

/// `key_position` finds the first row with the key.
pub proof fn lemma_key_position(rows: Seq<Row>, column: int, key: Seq<char>, from: int)
    requires
        0 <= from <= rows.len(),
    ensures
        from <= key_position(rows, column, key, from) <= rows.len(),
        key_position(rows, column, key, from) < rows.len() ==> key_of(
            rows[key_position(rows, column, key, from)],
            column,
        ) == key,
        forall|i: int|
            from <= i < key_position(rows, column, key, from) ==> key_of(rows[i], column) != key,
    decreases rows.len() - from,
{
    if from < rows.len() && key_of(rows[from], column) != key {
        lemma_key_position(rows, column, key, from + 1);
    }
}

/// A store without a row of some key counts no row of that key.
pub proof fn lemma_count_absent(rows: Seq<Row>, column: int, key: Seq<char>)
    requires
        !has_key(rows, column, key),
    ensures
        count_key(rows, column, key) == 0,
    decreases rows.len(),
{
    if rows.len() > 0 {
        assert(key_of(rows[rows.len() - 1], column) != key);
        assert forall|i: int| 0 <= i < rows.drop_last().len() implies key_of(
            #[trigger] rows.drop_last()[i],
            column,
        ) != key by {
            assert(rows.drop_last()[i] == rows[i]);
        }
        lemma_count_absent(rows.drop_last(), column, key);
    }
}

/// A store with distinct keys counts one row for each key that it has.
pub proof fn lemma_count_present(rows: Seq<Row>, column: int, at: int)
    requires
        distinct_keys(rows, column),
        0 <= at < rows.len(),
    ensures
        count_key(rows, column, key_of(rows[at], column)) == 1,
    decreases rows.len(),
{
    let key = key_of(rows[at], column);
    let before = rows.drop_last();
    assert forall|i: int, j: int| 0 <= i < j < before.len() implies key_of(
        #[trigger] before[i],
        column,
    ) != key_of(#[trigger] before[j], column) by {
        assert(before[i] == rows[i] && before[j] == rows[j]);
    }
    if at == rows.len() - 1 {
        assert forall|i: int| 0 <= i < before.len() implies key_of(#[trigger] before[i], column)
            != key by {
            assert(before[i] == rows[i]);
        }
        lemma_count_absent(before, column, key);
    } else {
        assert(before[at] == rows[at]);
        lemma_count_present(before, column, at);
    }
}

/// Writing a row keeps the keys distinct, keeps every row of another key
/// where it was, and leaves the row written as the one row of its key.
pub proof fn law_upsert(rows: Seq<Row>, column: int, row: Row)
    requires
        distinct_keys(rows, column),
    ensures
        distinct_keys(upsert(rows, column, row), column),
        rows.len() <= upsert(rows, column, row).len() <= rows.len() + 1,
        forall|i: int|
            0 <= i < rows.len() && key_of(rows[i], column) != key_of(row, column) ==> upsert(
                rows,
                column,
                row,
            )[i] == rows[i],
        forall|i: int|
            0 <= i < rows.len() ==> key_of(#[trigger] upsert(rows, column, row)[i], column)
                == key_of(rows[i], column),
        0 <= key_position(rows, column, key_of(row, column), 0) < upsert(rows, column, row).len(),
        upsert(rows, column, row)[key_position(rows, column, key_of(row, column), 0)] == row,
        count_key(upsert(rows, column, row), column, key_of(row, column)) == 1,
{
    let key = key_of(row, column);
    let at = key_position(rows, column, key, 0);
    lemma_key_position(rows, column, key, 0);
    let after = upsert(rows, column, row);
    assert forall|i: int, j: int| 0 <= i < j < after.len() implies key_of(
        #[trigger] after[i],
        column,
    ) != key_of(#[trigger] after[j], column) by {
        if at < rows.len() {
            assert(key_of(after[i], column) == key_of(rows[i], column));
            assert(key_of(after[j], column) == key_of(rows[j], column));
        } else if j < rows.len() {
            assert(after[i] == rows[i] && after[j] == rows[j]);
        } else {
            assert(after[i] == rows[i]);
        }
    }
    lemma_count_present(after, column, at);
}

/// Writing rows one after the other keeps the keys distinct.
pub proof fn law_merge_keeps_keys_distinct(rows: Seq<Row>, column: int, more: Seq<Row>)
    requires
        distinct_keys(rows, column),
    ensures
        distinct_keys(merged(rows, column, more), column),
    decreases more.len(),
{
    if more.len() > 0 {
        law_merge_keeps_keys_distinct(rows, column, more.drop_last());
        law_upsert(merged(rows, column, more.drop_last()), column, more.last());
    }
}

/// No later write drops a row: a key that the store has, it still has after
/// any rows were written, and the store has not become shorter.
pub proof fn law_no_row_dropped(rows: Seq<Row>, column: int, more: Seq<Row>, key: Seq<char>)
    requires
        distinct_keys(rows, column),
        has_key(rows, column, key),
    ensures
        has_key(merged(rows, column, more), column, key),
        rows.len() <= merged(rows, column, more).len(),
    decreases more.len(),
{
    if more.len() > 0 {
        let before = merged(rows, column, more.drop_last());
        law_no_row_dropped(rows, column, more.drop_last(), key);
        law_merge_keeps_keys_distinct(rows, column, more.drop_last());
        law_upsert(before, column, more.last());
        let i = choose|i: int| 0 <= i < before.len() && key_of(#[trigger] before[i], column) == key;
        assert(key_of(upsert(before, column, more.last())[i], column) == key);
    }
}

/// Writing the same row twice gives what writing it once gives.
pub proof fn law_write_twice_is_once(rows: Seq<Row>, column: int, row: Row)
    requires
        distinct_keys(rows, column),
    ensures
        upsert(upsert(rows, column, row), column, row) =~= upsert(rows, column, row),
        count_key(upsert(upsert(rows, column, row), column, row), column, key_of(row, column))
            == 1,
{
    law_last_write_wins(rows, column, row, row);
}

/// Where two rows of one key are written one after the other, the store
/// holds what writing the second alone gives: one row of that key, with the
/// fields of the second.
pub proof fn law_last_write_wins(rows: Seq<Row>, column: int, first: Row, second: Row)
    requires
        distinct_keys(rows, column),
        key_of(first, column) == key_of(second, column),
    ensures
        upsert(upsert(rows, column, first), column, second) =~= upsert(rows, column, second),
        count_key(
            upsert(upsert(rows, column, first), column, second),
            column,
            key_of(second, column),
        ) == 1,
        upsert(upsert(rows, column, first), column, second)[key_position(
            rows,
            column,
            key_of(second, column),
            0,
        )] == second,
{
    let key = key_of(second, column);
    let at = key_position(rows, column, key, 0);
    let once = upsert(rows, column, first);
    lemma_key_position(rows, column, key, 0);
    law_upsert(rows, column, first);
    law_upsert(rows, column, second);
    lemma_key_position(once, column, key, 0);
    assert(key_of(once[at], column) == key);
    assert forall|i: int| 0 <= i < at implies key_of(once[i], column) != key by {
        assert(key_of(once[i], column) == key_of(rows[i], column));
    }
    assert(key_position(once, column, key, 0) == at);
}

/// A store that was read from a text has distinct keys.
pub proof fn law_loaded_keys_are_distinct(records: Seq<Row>, column: int)
    ensures
        distinct_keys(loaded(records, column), column),
{
    law_merge_keeps_keys_distinct(
        Seq::empty(),
        column,
        records.subrange(1, records.len() as int),
    );
}

/// Merging a listing into a store that already holds a listing of the same
/// item id leaves one row of that id, with the fields of the listing merged
/// last; where the two listings are the same, the store is as after the
/// first merge.
pub proof fn law_merge_by_item_id(rows: Seq<Row>, first: ListingView, second: ListingView)
    requires
        distinct_keys(rows, KEY_COLUMN as int),
        first.key() == second.key(),
    ensures
        ({
            let column = KEY_COLUMN as int;
            let once = merged(rows, column, listing_rows(seq![first]));
            let twice = merged(once, column, listing_rows(seq![second]));
            &&& count_key(twice, column, second.key()) == 1
            &&& twice[key_position(rows, column, second.key(), 0)] == second.row()
            &&& twice.len() == once.len()
            &&& first == second ==> twice =~= once
        }),
{
    let column = KEY_COLUMN as int;
    let one = listing_rows(seq![first]);
    let two = listing_rows(seq![second]);
    assert(one.drop_last() =~= Seq::<Row>::empty());
    assert(two.drop_last() =~= Seq::<Row>::empty());
    assert(one.last() == first.row());
    assert(two.last() == second.row());
    assert(merged(rows, column, one.drop_last()) == rows);
    let once = merged(rows, column, one);
    assert(once == upsert(rows, column, first.row()));
    assert(merged(once, column, two.drop_last()) == once);
    assert(merged(once, column, two) == upsert(once, column, second.row()));
    assert(key_of(first.row(), column) == first.key());
    assert(key_of(second.row(), column) == second.key());
    law_last_write_wins(rows, column, first.row(), second.row());
    law_upsert(rows, column, first.row());
    law_upsert(rows, column, second.row());
}

} // verus!
