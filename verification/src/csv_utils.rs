//! The ledger: a CSV file in a text encoding that the caller chooses. Files
//! are read and written by the caller; this module turns bytes into rows and
//! rows into bytes.

use vstd::prelude::*;
use vstd::hash_set::StringHashSet;
use crate::errors::{FavlistError, FavlistErrorView, join2};
use crate::models::{VideoEntry, VideoEntryView};
use crate::text::{str_eq, trim, trimmed};

verus! {

/// One data line of a ledger: the value of each column, by the column's
/// name. Where a name occurs twice, the later value is the one it has.
#[derive(Debug)]
pub struct CsvRow {
    cells: Vec<(String, String)>,
}

/// The mapping that a list of cells describes, the later cell winning.
pub open spec fn cells_map(cells: Seq<(String, String)>) -> Map<Seq<char>, Seq<char>>
    decreases cells.len(),
{
    if cells.len() == 0 {
        Map::empty()
    } else {
        cells_map(cells.drop_last()).insert(cells.last().0@, cells.last().1@)
    }
}

/// The last cell named `key` decides what the mapping holds for `key`.
proof fn lemma_cells_map_last(cells: Seq<(String, String)>, key: Seq<char>, i: int)
    requires
        0 <= i < cells.len(),
        cells[i].0@ == key,
        forall|j: int| i < j < cells.len() ==> (#[trigger] cells[j]).0@ != key,
    ensures
        cells_map(cells).contains_key(key),
        cells_map(cells)[key] == cells[i].1@,
    decreases cells.len(),
{
    if i < cells.len() - 1 {
        let rest = cells.drop_last();
        assert(cells.last().0@ != key);
        assert forall|j: int| i < j < rest.len() implies (#[trigger] rest[j]).0@ != key by {
            assert(rest[j] == cells[j]);
        }
        lemma_cells_map_last(rest, key, i);
    }
}

/// Without a cell named `key` the mapping holds nothing for `key`.
proof fn lemma_cells_map_absent(cells: Seq<(String, String)>, key: Seq<char>)
    requires
        forall|j: int| 0 <= j < cells.len() ==> (#[trigger] cells[j]).0@ != key,
    ensures
        !cells_map(cells).contains_key(key),
    decreases cells.len(),
{
    if cells.len() > 0 {
        let rest = cells.drop_last();
        assert(cells.last().0@ != key);
        assert forall|j: int| 0 <= j < rest.len() implies (#[trigger] rest[j]).0@ != key by {
            assert(rest[j] == cells[j]);
        }
        lemma_cells_map_absent(rest, key);
    }
}

impl View for CsvRow {
    type V = Map<Seq<char>, Seq<char>>;

    closed spec fn view(&self) -> Map<Seq<char>, Seq<char>> {
        cells_map(self.cells@)
    }
}

impl CsvRow {
    /// A row without columns.
    pub fn new() -> (row: CsvRow)
        ensures
            row@ == Map::<Seq<char>, Seq<char>>::empty(),
    {
        CsvRow { cells: Vec::new() }
    }

    /// Gives column `key` the value `value`, whatever it had before.
    pub fn insert(&mut self, key: String, value: String)
        ensures
            final(self)@ == old(self)@.insert(key@, value@),
    {
        self.cells.push((key, value));
        proof {
            assert(self.cells@.drop_last() =~= old(self).cells@);
        }
    }

    /// The value of column `key`, if the row has that column.
    pub fn get(&self, key: &str) -> (r: Option<&String>)
        ensures
            match r {
                Some(value) => self@.contains_key(key@) && self@[key@] == value@,
                None => !self@.contains_key(key@),
            },
    {
        let mut i: usize = self.cells.len();
        while i > 0
            invariant
                i <= self.cells.len(),
                forall|j: int| i <= j < self.cells.len() ==> (#[trigger] self.cells@[j]).0@ != key@,
            decreases i,
        {
            i -= 1;
            if str_eq(self.cells[i].0.as_str(), key) {
                proof {
                    lemma_cells_map_last(self.cells@, key@, i as int);
                }
                return Some(&self.cells[i].1);
            }
        }
        proof {
            lemma_cells_map_absent(self.cells@, key@);
        }
        None
    }
}

impl Clone for CsvRow {
    fn clone(&self) -> (row: CsvRow)
        ensures
            row@ == self@,
    {
        let mut cells: Vec<(String, String)> = Vec::new();
        let mut i: usize = 0;
        while i < self.cells.len()
            invariant
                i <= self.cells.len(),
                cells@ == self.cells@.take(i as int),
            decreases self.cells.len() - i,
        {
            let key = self.cells[i].0.clone();
            let value = self.cells[i].1.clone();
            cells.push((key, value));
            proof {
                assert(cells@ =~= self.cells@.take(i + 1));
            }
            i += 1;
        }
        proof {
            assert(self.cells@.take(self.cells.len() as int) =~= self.cells@);
        }
        CsvRow { cells }
    }
}


/// The error of the `csv` crate.
#[verifier::external_type_specification]
#[verifier::external_body]
pub struct ExCsvError(csv::Error);

/// The name of the encoding that `encoding_rs` knows under a label, if it
/// knows one.
pub uninterp spec fn encoding_of_label(label: Seq<char>) -> Option<Seq<char>>;

/// What `encoding_rs_io` makes of bytes in the encoding of a label: the same
/// text in UTF-8. `None` where the label is unknown.
pub uninterp spec fn decoded_utf8(label: Seq<char>, data: Seq<u8>) -> Option<Seq<u8>>;

/// What `encoding_rs` makes of a text in the encoding of a label: the bytes,
/// and whether a character had no place in the encoding. `None` where the
/// label is unknown.
pub uninterp spec fn encoded_text(label: Seq<char>, text: Seq<char>) -> Option<(Seq<u8>, bool)>;

/// The first record of a CSV text, as the `csv` crate reads it with its
/// default settings. `None` where it reports an error.
pub uninterp spec fn csv_header_row(data: Seq<u8>) -> Option<Seq<Seq<char>>>;

/// The records after the first of a CSV text, as the `csv` crate reads them
/// with its default settings. `None` where it reports an error.
pub uninterp spec fn csv_record_rows(data: Seq<u8>) -> Option<Seq<Seq<Seq<char>>>>;

/// The line that the `csv` crate writes for one record. `None` where it
/// reports an error.
pub uninterp spec fn csv_line_bytes(fields: Seq<Seq<char>>) -> Option<Seq<u8>>;

/// The texts of a list of strings.
pub open spec fn texts(fields: Seq<String>) -> Seq<Seq<char>> {
    fields.map_values(|f: String| f@)
}

/// The texts of a list of records.
pub open spec fn record_texts(records: Seq<Vec<String>>) -> Seq<Seq<Seq<char>>> {
    records.map_values(|r: Vec<String>| texts(r@))
}

/// `Encoding::for_label` and `Encoding::name` of `encoding_rs`: the encoding
/// that goes by `label`, by its name.
#[verifier::external_body]
fn encoding_name(label: &str) -> (r: Option<String>)
    ensures
        match r {
            Some(name) => encoding_of_label(label@) == Some(name@),
            None => encoding_of_label(label@) is None,
        },
{
    encoding_rs::Encoding::for_label(label.as_bytes()).map(|e| e.name().to_string())
}

/// `DecodeReaderBytesBuilder` of `encoding_rs_io`, with the encoding that
/// `Encoding::for_label` gives for `label`, over `data`, read to its end:
/// `data` transcoded to UTF-8.
#[verifier::external_body]
fn decode_to_utf8(label: &str, data: &[u8]) -> (r: Option<Vec<u8>>)
    ensures
        match r {
            Some(bytes) => decoded_utf8(label@, data@) == Some(bytes@),
            None => decoded_utf8(label@, data@) is None,
        },
{
    let encoding = encoding_rs::Encoding::for_label(label.as_bytes())?;
    let mut reader = encoding_rs_io::DecodeReaderBytesBuilder::new().encoding(Some(encoding)).build(
        data,
    );
    let mut out = Vec::new();
    std::io::Read::read_to_end(&mut reader, &mut out).ok()?;
    Some(out)
}

/// The longest text, in bytes, that is handed to `Encoding::encode`, whose
/// buffer size is a multiple of the text's length.
pub const MAX_ENCODE_LEN: usize = 0x1000_0000;

/// `Encoding::encode` of `encoding_rs`, on the encoding that
/// `Encoding::for_label` gives for `label`: the bytes of `text` in that
/// encoding, and whether a character could not be represented.
#[verifier::external_body]
fn encode_text(label: &str, text: &str) -> (r: Option<(Vec<u8>, bool)>)
    requires
        text.len() <= MAX_ENCODE_LEN,
    ensures
        match r {
            Some((bytes, had_errors)) => encoded_text(label@, text@) == Some((bytes@, had_errors)),
            None => encoded_text(label@, text@) is None,
        },
{
    let encoding = encoding_rs::Encoding::for_label(label.as_bytes())?;
    let (bytes, _, had_errors) = encoding.encode(text);
    Some((bytes.into_owned(), had_errors))
}

/// `Reader::headers` of the `csv` crate, on a reader over `data`.
#[verifier::external_body]
fn csv_headers(data: &[u8]) -> (r: Result<Vec<String>, csv::Error>)
    ensures
        match r {
            Ok(headers) => csv_header_row(data@) == Some(texts(headers@)),
            Err(_) => csv_header_row(data@) is None,
        },
{
    let mut reader = csv::Reader::from_reader(data);
    let headers = reader.headers()?;
    Ok(headers.iter().map(|field| field.to_string()).collect())
}

/// `Reader::records` of the `csv` crate, on a reader over `data`: every
/// record after the first, or the first error.
#[verifier::external_body]
fn csv_records(data: &[u8]) -> (r: Result<Vec<Vec<String>>, csv::Error>)
    ensures
        match r {
            Ok(records) => csv_record_rows(data@) == Some(record_texts(records@)),
            Err(_) => csv_record_rows(data@) is None,
        },
{
    let mut reader = csv::Reader::from_reader(data);
    let mut records = Vec::new();
    for record in reader.records() {
        records.push(record?.iter().map(|field| field.to_string()).collect());
    }
    Ok(records)
}

/// `Writer::write_record` of the `csv` crate, on a writer without headers
/// over an empty buffer: the line for one record.
#[verifier::external_body]
fn csv_line(fields: &Vec<String>) -> (r: Result<Vec<u8>, csv::Error>)
    ensures
        match r {
            Ok(line) => csv_line_bytes(texts(fields@)) == Some(line@),
            Err(_) => csv_line_bytes(texts(fields@)) is None,
        },
{
    let mut writer = csv::WriterBuilder::new().has_headers(false).from_writer(Vec::new());
    writer.write_record(fields)?;
    writer.flush()?;
    writer.into_inner().map_err(|e| csv::Error::from(e.into_error()))
}

/// The text that a `csv::Error` shows.
#[verifier::external_body]
fn csv_error_text(error: &csv::Error) -> String {
    error.to_string()
}

/// `String::from_utf8`: the text that the bytes encode, where they are
/// UTF-8; else the text of the error.
#[verifier::external_body]
fn string_from_utf8(bytes: Vec<u8>) -> (r: Result<String, String>)
    ensures
        match r {
            Ok(text) => vstd::utf8::valid_utf8(bytes@) && text@ == vstd::utf8::decode_utf8(bytes@),
            Err(_) => !vstd::utf8::valid_utf8(bytes@),
        },
{
    String::from_utf8(bytes).map_err(|e| e.to_string())
}


/// The row that a record makes under the headers: each value trimmed and
/// put under the header at its place, as far as both reach.
pub open spec fn row_of(headers: Seq<Seq<char>>, record: Seq<Seq<char>>, n: nat) -> Map<
    Seq<char>,
    Seq<char>,
>
    decreases n,
{
    if n == 0 {
        Map::empty()
    } else {
        row_of(headers, record, (n - 1) as nat).insert(headers[n - 1], trimmed(record[n - 1]))
    }
}

/// The number of columns that a record fills under the headers.
pub open spec fn width(headers: Seq<Seq<char>>, record: Seq<Seq<char>>) -> nat {
    if headers.len() <= record.len() {
        headers.len()
    } else {
        record.len()
    }
}

/// What reading a ledger gives, for every outcome of the outside crates:
/// its rows, or the kind of failure.
pub enum LedgerRead<T> {
    Rows(T),
    UnknownEncoding,
    BadCsv,
}

/// The headers and records of a ledger file in the encoding of `label`.
pub open spec fn ledger_table(label: Seq<char>, data: Seq<u8>) -> LedgerRead<
    (Seq<Seq<char>>, Seq<Seq<Seq<char>>>),
> {
    if encoding_of_label(label) is None {
        LedgerRead::UnknownEncoding
    } else {
        match decoded_utf8(label, data) {
            None => LedgerRead::UnknownEncoding,
            Some(text) => match csv_header_row(text) {
                None => LedgerRead::BadCsv,
                Some(headers) => match csv_record_rows(text) {
                    None => LedgerRead::BadCsv,
                    Some(records) => LedgerRead::Rows((headers, records)),
                },
            },
        }
    }
}

/// The failure that stands for an encoding that is not known.
pub open spec fn unknown_encoding(label: Seq<char>) -> FavlistErrorView {
    FavlistErrorView::UnsupportedEncoding(label)
}

/// Checks that `label` names an encoding; gives the encoding's name.
pub fn resolve_encoding(label: &str) -> (r: Result<String, FavlistError>)
    ensures
        match r {
            Ok(name) => encoding_of_label(label@) == Some(name@),
            Err(e) => encoding_of_label(label@) is None && e@ == unknown_encoding(label@),
        },
{
    match encoding_name(label) {
        Some(name) => Ok(name),
        None => Err(FavlistError::UnsupportedEncoding(label.to_owned())),
    }
}

/// The row that `record` makes under `headers`.
fn build_row(headers: &Vec<String>, record: &Vec<String>) -> (row: CsvRow)
    ensures
        row@ == row_of(texts(headers@), texts(record@), width(texts(headers@), texts(record@))),
{
    let mut row = CsvRow::new();
    let mut i: usize = 0;
    while i < headers.len() && i < record.len()
        invariant
            i <= headers.len(),
            i <= record.len(),
            row@ == row_of(texts(headers@), texts(record@), i as nat),
        decreases headers.len() - i,
    {
        let key = headers[i].clone();
        let value = trim(record[i].as_str());
        row.insert(key, value);
        i += 1;
    }
    row
}

/// The rows of a ledger: one for each record after the header line, with
/// the values trimmed. `file` is what the ledger file holds, `None` where
/// there is no such file, which reads as a ledger without rows.
pub fn read_csv_rows(file: Option<&[u8]>, encoding: &str) -> (r: Result<Vec<CsvRow>, FavlistError>)
    ensures
        match file {
            None => r matches Ok(rows) && rows@.len() == 0,
            Some(data) => match ledger_table(encoding@, data@) {
                LedgerRead::UnknownEncoding => r matches Err(e) && e@ == unknown_encoding(
                    encoding@,
                ),
                LedgerRead::BadCsv => r matches Err(e) && e@ is Csv,
                LedgerRead::Rows((headers, records)) => r matches Ok(rows) && rows@.len()
                    == records.len() && forall|i: int|
                    0 <= i < records.len() ==> (#[trigger] rows@[i])@ == row_of(
                        headers,
                        records[i],
                        width(headers, records[i]),
                    ),
            },
        },
{
    let data = match file {
        Some(data) => data,
        None => {
            return Ok(Vec::new());
        },
    };
    if let Err(e) = resolve_encoding(encoding) {
        return Err(e);
    }
    let text = match decode_to_utf8(encoding, data) {
        Some(text) => text,
        None => {
            return Err(FavlistError::UnsupportedEncoding(encoding.to_owned()));
        },
    };
    let headers = match csv_headers(text.as_slice()) {
        Ok(headers) => headers,
        Err(e) => {
            return Err(FavlistError::Csv(csv_error_text(&e)));
        },
    };
    let records = match csv_records(text.as_slice()) {
        Ok(records) => records,
        Err(e) => {
            return Err(FavlistError::Csv(csv_error_text(&e)));
        },
    };
    let mut rows: Vec<CsvRow> = Vec::new();
    let mut i: usize = 0;
    while i < records.len()
        invariant
            i <= records.len(),
            rows@.len() == i,
            forall|k: int|
                0 <= k < i ==> (#[trigger] rows@[k])@ == row_of(
                    texts(headers@),
                    record_texts(records@)[k],
                    width(texts(headers@), record_texts(records@)[k]),
                ),
        decreases records.len() - i,
    {
        let row = build_row(&headers, &records[i]);
        rows.push(row);
        i += 1;
    }
    Ok(rows)
}


/// Whether a column of this name holds the identifiers of a ledger.
pub open spec fn is_id_column(name: Seq<char>) -> bool {
    name == "bv_id"@ || name == "BV号"@ || name == "视频BV号"@
}

/// The first column at or after `from` that holds identifiers.
pub open spec fn id_column_from(headers: Seq<Seq<char>>, from: int) -> Option<int>
    decreases headers.len() - from,
{
    if from < 0 || from >= headers.len() {
        None
    } else if is_id_column(headers[from]) {
        Some(from)
    } else {
        id_column_from(headers, from + 1)
    }
}

/// Whether `record` holds the identifier `id`, not blank, in column `column`.
pub open spec fn record_gives(record: Seq<Seq<char>>, column: int, id: Seq<char>) -> bool {
    0 <= column < record.len() && trimmed(record[column]) == id && id.len() > 0
}

/// The identifiers that the records hold in column `column`.
pub open spec fn column_ids(records: Seq<Seq<Seq<char>>>, column: int) -> Set<Seq<char>> {
    Set::new(
        |id: Seq<char>|
            exists|k: int| 0 <= k < records.len() && record_gives(#[trigger] records[k], column, id),
    )
}

/// The identifiers of a ledger file in the encoding of `label`; none where
/// it has no column of identifiers.
pub open spec fn ledger_ids(label: Seq<char>, data: Seq<u8>) -> LedgerRead<Set<Seq<char>>> {
    if encoding_of_label(label) is None {
        LedgerRead::UnknownEncoding
    } else {
        match decoded_utf8(label, data) {
            None => LedgerRead::UnknownEncoding,
            Some(text) => match csv_header_row(text) {
                None => LedgerRead::BadCsv,
                Some(headers) => match id_column_from(headers, 0) {
                    None => LedgerRead::Rows(Set::empty()),
                    Some(column) => match csv_record_rows(text) {
                        None => LedgerRead::BadCsv,
                        Some(records) => LedgerRead::Rows(column_ids(records, column)),
                    },
                },
            },
        }
    }
}

/// Whether a column of this name holds the identifiers of a ledger.
fn is_id_column_name(name: &str) -> (b: bool)
    ensures
        b == is_id_column(name@),
{
    str_eq(name, "bv_id") || str_eq(name, "BV号") || str_eq(name, "视频BV号")
}

/// The first column that holds identifiers, if there is one.
fn find_id_column(headers: &Vec<String>) -> (r: Option<usize>)
    ensures
        match r {
            Some(i) => id_column_from(texts(headers@), 0) == Some(i as int),
            None => id_column_from(texts(headers@), 0) is None,
        },
{
    let mut i: usize = 0;
    while i < headers.len()
        invariant
            i <= headers.len(),
            id_column_from(texts(headers@), 0) == id_column_from(texts(headers@), i as int),
        decreases headers.len() - i,
    {
        if is_id_column_name(headers[i].as_str()) {
            return Some(i);
        }
        i += 1;
    }
    None
}

/// The identifiers that a ledger already holds. `file` is what the ledger
/// file holds, `None` where there is no such file. A ledger without a
/// column of identifiers holds none.
pub fn load_existing_bv_ids(file: Option<&[u8]>, encoding: &str) -> (r: Result<
    StringHashSet,
    FavlistError,
>)
    ensures
        match file {
            None => r matches Ok(ids) && ids@ == Set::<Seq<char>>::empty(),
            Some(data) => match ledger_ids(encoding@, data@) {
                LedgerRead::UnknownEncoding => r matches Err(e) && e@ == unknown_encoding(
                    encoding@,
                ),
                LedgerRead::BadCsv => r matches Err(e) && e@ is Csv,
                LedgerRead::Rows(expected) => r matches Ok(ids) && ids@ == expected,
            },
        },
{
    let data = match file {
        Some(data) => data,
        None => {
            return Ok(StringHashSet::new());
        },
    };
    if let Err(e) = resolve_encoding(encoding) {
        return Err(e);
    }
    let text = match decode_to_utf8(encoding, data) {
        Some(text) => text,
        None => {
            return Err(FavlistError::UnsupportedEncoding(encoding.to_owned()));
        },
    };
    let headers = match csv_headers(text.as_slice()) {
        Ok(headers) => headers,
        Err(e) => {
            return Err(FavlistError::Csv(csv_error_text(&e)));
        },
    };
    let column = match find_id_column(&headers) {
        Some(column) => column,
        None => {
            return Ok(StringHashSet::new());
        },
    };
    let records = match csv_records(text.as_slice()) {
        Ok(records) => records,
        Err(e) => {
            return Err(FavlistError::Csv(csv_error_text(&e)));
        },
    };
    let mut existing = StringHashSet::new();
    let ghost all = record_texts(records@);
    let mut i: usize = 0;
    proof {
        assert(column_ids(all.take(0), column as int) =~= Set::<Seq<char>>::empty());
    }
    while i < records.len()
        invariant
            i <= records.len(),
            all == record_texts(records@),
            existing@ == column_ids(all.take(i as int), column as int),
        decreases records.len() - i,
    {
        let record = &records[i];
        let ghost before = all.take(i as int);
        let ghost after = all.take(i + 1);
        proof {
            assert(after.drop_last() =~= before);
            assert(after.last() == texts(record@));
        }
        if column < record.len() {
            let id = trim(record[column].as_str());
            if id.as_str().unicode_len() > 0 {
                proof {
                    assert(record_gives(after[i as int], column as int, id@));
                    assert forall|x: Seq<char>| #[trigger]
                        column_ids(after, column as int).contains(x) implies column_ids(
                        before,
                        column as int,
                    ).insert(id@).contains(x) by {
                        let k = choose|k: int|
                            0 <= k < after.len() && record_gives(
                                #[trigger] after[k],
                                column as int,
                                x,
                            );
                        if k < i {
                            assert(before[k] == after[k]);
                        }
                    }
                    assert forall|x: Seq<char>| #[trigger]
                        column_ids(before, column as int).insert(id@).contains(
                            x,
                        ) implies column_ids(after, column as int).contains(x) by {
                        if x != id@ {
                            let k = choose|k: int|
                                0 <= k < before.len() && record_gives(
                                    #[trigger] before[k],
                                    column as int,
                                    x,
                                );
                            assert(after[k] == before[k]);
                        }
                    }
                    assert(column_ids(after, column as int) =~= column_ids(
                        before,
                        column as int,
                    ).insert(id@));
                }
                existing.insert(id);
                i += 1;
                continue;
            }
        }
        proof {
            assert forall|x: Seq<char>| #[trigger]
                column_ids(after, column as int).contains(x) implies column_ids(
                before,
                column as int,
            ).contains(x) by {
                let k = choose|k: int|
                    0 <= k < after.len() && record_gives(#[trigger] after[k], column as int, x);
                assert(k < i);
                assert(before[k] == after[k]);
            }
            assert forall|x: Seq<char>| #[trigger]
                column_ids(before, column as int).contains(x) implies column_ids(
                after,
                column as int,
            ).contains(x) by {
                let k = choose|k: int|
                    0 <= k < before.len() && record_gives(#[trigger] before[k], column as int, x);
                assert(after[k] == before[k]);
            }
            assert(column_ids(after, column as int) =~= column_ids(before, column as int));
        }
        i += 1;
    }
    proof {
        assert(all.take(records.len() as int) =~= all);
    }
    Ok(existing)
}


/// The names of the four columns of a ledger, in their order.
pub const FIELDNAMES: [&'static str; 4] = ["timestamp", "bv_id", "title", "fav_name"];

/// The names of the four columns of a ledger, in their order.
pub open spec fn header_fields() -> Seq<Seq<char>> {
    seq!["timestamp"@, "bv_id"@, "title"@, "fav_name"@]
}

/// The four values that an entry puts in a ledger, in the columns' order.
pub open spec fn entry_fields(entry: VideoEntryView) -> Seq<Seq<char>> {
    seq![entry.timestamp, entry.bv_id, entry.title, entry.fav_title]
}

/// The names of the four columns of a ledger, in their order.
pub fn fieldnames() -> (names: Vec<String>)
    ensures
        texts(names@) == header_fields(),
{
    let mut names: Vec<String> = Vec::new();
    names.push("timestamp".to_owned());
    names.push("bv_id".to_owned());
    names.push("title".to_owned());
    names.push("fav_name".to_owned());
    proof {
        assert(texts(names@) =~= header_fields());
    }
    names
}

/// Why a record could not be written.
pub enum LineFault {
    /// The `csv` crate reported an error.
    Csv,
    /// The record cannot be put in the encoding.
    Encoding,
}

/// The bytes that one record adds to a ledger: its CSV line as it is for
/// UTF-8, else that line in the encoding of `label`, which fails where the
/// line is longer than `MAX_ENCODE_LEN` or holds a character that the
/// encoding lacks.
pub open spec fn record_bytes(label: Seq<char>, fields: Seq<Seq<char>>) -> Result<
    Seq<u8>,
    LineFault,
> {
    match csv_line_bytes(fields) {
        None => Err(LineFault::Csv),
        Some(line) => if encoding_of_label(label) == Some("UTF-8"@) {
            Ok(line)
        } else if line.len() > MAX_ENCODE_LEN || !vstd::utf8::valid_utf8(line) {
            Err(LineFault::Encoding)
        } else {
            match encoded_text(label, vstd::utf8::decode_utf8(line)) {
                Some((bytes, false)) => Ok(bytes),
                _ => Err(LineFault::Encoding),
            }
        },
    }
}

/// The bytes that a list of records adds to a ledger, one after the other;
/// the first record that cannot be written decides the failure.
pub open spec fn records_bytes(label: Seq<char>, records: Seq<Seq<Seq<char>>>) -> Result<
    Seq<u8>,
    LineFault,
>
    decreases records.len(),
{
    if records.len() == 0 {
        Ok(Seq::empty())
    } else {
        match records_bytes(label, records.drop_last()) {
            Err(fault) => Err(fault),
            Ok(bytes) => match record_bytes(label, records.last()) {
                Err(fault) => Err(fault),
                Ok(line) => Ok(bytes + line),
            },
        }
    }
}

/// The records that writing `entries` adds to a ledger: the header line
/// first where the file is new, then one record for each entry.
pub open spec fn ledger_records(is_new_file: bool, entries: Seq<VideoEntryView>) -> Seq<
    Seq<Seq<char>>,
> {
    let lines = entries.map_values(|e: VideoEntryView| entry_fields(e));
    if is_new_file {
        seq![header_fields()] + lines
    } else {
        lines
    }
}

/// Appends to `out` the bytes of one record in the encoding of `label`,
/// whose name is `name`. On a failure `out` is as it was.
fn write_record(out: &mut Vec<u8>, label: &str, name: &str, record: &Vec<String>) -> (r: Result<
    (),
    FavlistError,
>)
    requires
        encoding_of_label(label@) == Some(name@),
    ensures
        match record_bytes(label@, texts(record@)) {
            Ok(bytes) => r is Ok && final(out)@ == old(out)@ + bytes,
            Err(LineFault::Csv) => r matches Err(e) && e@ is Csv && final(out)@ == old(out)@,
            Err(LineFault::Encoding) => r matches Err(e) && e@ is Encoding && final(out)@ == old(out)@,
        },
{
    let mut line = match csv_line(record) {
        Ok(line) => line,
        Err(e) => {
            return Err(FavlistError::Csv(csv_error_text(&e)));
        },
    };
    if str_eq(name, "UTF-8") {
        out.append(&mut line);
        return Ok(());
    }
    if line.len() > MAX_ENCODE_LEN {
        return Err(FavlistError::Encoding("编码转换失败".to_owned()));
    }
    let ghost line_bytes = line@;
    let text = match string_from_utf8(line) {
        Ok(text) => text,
        Err(message) => {
            return Err(FavlistError::Encoding(message));
        },
    };
    proof {
        vstd::utf8::decode_utf8_encode_utf8(line_bytes);
    }
    match encode_text(label, text.as_str()) {
        Some((mut bytes, had_errors)) => {
            if had_errors {
                return Err(FavlistError::Encoding("编码转换失败".to_owned()));
            }
            out.append(&mut bytes);
            Ok(())
        },
        None => Err(FavlistError::Encoding(join2("不支持的编码: ", label))),
    }
}

/// The four values of an entry, in the columns' order.
fn entry_record(entry: &VideoEntry) -> (record: Vec<String>)
    ensures
        texts(record@) == entry_fields(entry@),
{
    let mut record: Vec<String> = Vec::new();
    record.push(entry.timestamp.clone());
    record.push(entry.bv_id.clone());
    record.push(entry.title.clone());
    record.push(entry.fav_title.clone());
    proof {
        assert(texts(record@) =~= entry_fields(entry@));
    }
    record
}

/// What a ledger gains by a write: the bytes to append to the file, and
/// the number of entries that they hold.
#[derive(Debug)]
pub struct WrittenEntries {
    pub bytes: Vec<u8>,
    pub count: usize,
}

/// What to append to a ledger so that it holds `entries` too: the header
/// line first where the file is new (`is_new_file`), then one line for
/// each entry, all in the encoding `encoding`. Nothing is to be written
/// where this fails.
pub fn write_entries(encoding: &str, is_new_file: bool, entries: &Vec<VideoEntry>) -> (r: Result<
    WrittenEntries,
    FavlistError,
>)
    ensures
        match encoding_of_label(encoding@) {
            None => r matches Err(e) && e@ == unknown_encoding(encoding@),
            Some(_) => match records_bytes(
                encoding@,
                ledger_records(is_new_file, entries@.map_values(|e: VideoEntry| e@)),
            ) {
                Ok(bytes) => r matches Ok(out) && out.bytes@ == bytes && out.count
                    == entries@.len(),
                Err(LineFault::Csv) => r matches Err(e) && e@ is Csv,
                Err(LineFault::Encoding) => r matches Err(e) && e@ is Encoding,
            },
        },
{
    let name = match resolve_encoding(encoding) {
        Ok(name) => name,
        Err(e) => {
            return Err(e);
        },
    };
    let mut out: Vec<u8> = Vec::new();
    let ghost head = if is_new_file {
        seq![header_fields()]
    } else {
        Seq::<Seq<Seq<char>>>::empty()
    };
    let ghost views = entries@.map_values(|e: VideoEntry| e@);
    let ghost lines = views.map_values(|e: VideoEntryView| entry_fields(e));
    proof {
        assert(ledger_records(is_new_file, views) =~= head + lines);
    }
    if is_new_file {
        let header = fieldnames();
        proof {
            assert(head.drop_last() =~= Seq::<Seq<Seq<char>>>::empty());
            assert(records_bytes(encoding@, head.drop_last()) == Ok::<Seq<u8>, LineFault>(
                Seq::empty(),
            ));
            assert(head.last() == header_fields());
        }
        match write_record(&mut out, encoding, name.as_str(), &header) {
            Ok(()) => {
                proof {
                    assert(Seq::<u8>::empty() + out@ =~= out@);
                }
            },
            Err(e) => {
                proof {
                    lemma_records_bytes_fail(encoding@, head, lines);
                }
                return Err(e);
            },
        }
    }
    proof {
        assert(head + lines.take(0) =~= head);
    }
    let mut i: usize = 0;
    while i < entries.len()
        invariant
            i <= entries.len(),
            encoding_of_label(encoding@) == Some(name@),
            views == entries@.map_values(|e: VideoEntry| e@),
            lines == views.map_values(|e: VideoEntryView| entry_fields(e)),
            ledger_records(is_new_file, views) == head + lines,
            records_bytes(encoding@, head + lines.take(i as int)) == Ok::<Seq<u8>, LineFault>(
                out@,
            ),
        decreases entries.len() - i,
    {
        let record = entry_record(&entries[i]);
        let ghost done = head + lines.take(i as int);
        let ghost next = head + lines.take(i + 1);
        proof {
            assert(next.drop_last() =~= done);
            assert(next.last() == entry_fields(entries@[i as int]@));
        }
        match write_record(&mut out, encoding, name.as_str(), &record) {
            Ok(()) => {},
            Err(e) => {
                proof {
                    assert(records_bytes(encoding@, next.drop_last()) is Ok);
                    assert(record_bytes(encoding@, next.last()) is Err);
                    assert(records_bytes(encoding@, next) is Err);
                    assert(head + lines =~= next + lines.skip(i + 1));
                    lemma_records_bytes_fail(encoding@, next, lines.skip(i + 1));
                }
                return Err(e);
            },
        }
        i += 1;
    }
    proof {
        assert(lines.take(entries.len() as int) =~= lines);
    }
    Ok(WrittenEntries { bytes: out, count: entries.len() })
}

/// A list of records fails as its first part fails.
proof fn lemma_records_bytes_fail(
    label: Seq<char>,
    first: Seq<Seq<Seq<char>>>,
    rest: Seq<Seq<Seq<char>>>,
)
    requires
        records_bytes(label, first) is Err,
    ensures
        records_bytes(label, first + rest) == records_bytes(label, first),
    decreases rest.len(),
{
    if rest.len() == 0 {
        assert(first + rest =~= first);
    } else {
        assert((first + rest).drop_last() =~= first + rest.drop_last());
        lemma_records_bytes_fail(label, first, rest.drop_last());
    }
}

} // verus!
